//! Parsing statements and declarations.

use crate::ast::nodes::{
    AstNode, EnumVariant, EnumVariantField, ExpressionKind, ExpressionNode, Field, FunctionNode,
    MatchArm, Param, StatementKind, StatementNode, TypeKind, TypeNode, TypeParam, WhereClause,
};
use crate::ast::operators::{combine, PrimitiveType};
use crate::ast::tree::{
    enum_variant_fields_of, enum_variants_of, fields_of, functions_of, match_arms_of,
    ast_node_variant, expression_kind_variant, nodes_of, nodes_of_push, statement_kind_variant,
    type_kind_variant, params_of, stmts_of, type_params_of, EnumVariantFieldTree, FieldTree,
    FunctionTree, NodeTree, StmtTree,
};
use crate::diagnostic::DiagnosticCode;
use crate::lexer::{Span, TokenType};
use crate::parser::cursor::{faults, step, went, Parser};
use crate::parser::describe::describe_token;
use crate::parser::error::{Fault, ParserError, ParserResult};
use crate::parser::expressions::{
    check_no_postfix_increment_decrement, clause_tree, end_of, expr_tree,
    validate_postfix_in_statement,
};
use crate::parser::grammar::{
    angles_end, auto_declaration, block, block_nodes, block_or_statement, class_body,
    class_declaration, class_member, class_method, const_declaration, declaration,
    declaration_content, enum_declaration, enum_variant, enum_variants, expression_statement,
    field_declaration, field_default, for_statement, function_declaration, function_params,
    function_params_from, id_declaration, if_statement, interface_body, interface_declaration,
    interface_member, interface_method, into_statement, is_control_flow, is_type_parameter,
    looks_like_declaration, loop_exit, match_arm, match_arm_body, match_arms, match_guard,
    match_statement, member_end, needs_newline, optional_return_type, param_default, param_list,
    param_list_from, parens_end, program, recoverable, required_return_type, reserved_method,
    return_statement, same_line_where, single_param, statement, statement_content, statements_in,
    type_end, typed_declaration, typed_recovery, unblock, variant_data, variant_fields_from,
    while_statement, Member,
};
use crate::parser::grammar::{auto_declaration_def, block_def, block_nodes_def, block_or_statement_def, class_body_def, class_declaration_def, class_member_def, const_declaration_def, declaration_def, declaration_content_def, enum_declaration_def, enum_variant_def, enum_variants_def, expression_statement_def, field_declaration_def, field_default_def, for_statement_def, function_declaration_def, function_params_def, function_params_from_def, id_declaration_def, if_statement_def, interface_body_def, interface_declaration_def, interface_member_def, interface_method_def, match_arm_def, match_arm_body_def, match_arms_def, match_guard_def, match_statement_def, param_default_def, program_def, return_statement_def, same_line_where_def, single_param_def, statement_def, statement_content_def, typed_declaration_def, typed_recovery_def, while_statement_def};
use crate::parser::state::{before, State, MAX_ERRORS};
use crate::parser::type_grammar::Bounds;
use crate::text::{cat, same};
use vstd::prelude::*;

verus! {

broadcast use crate::ast::tree::tree_shapes;

pub open spec fn block_tree(b: (Vec<StatementNode>, Span)) -> (Seq<StmtTree>, Span) {
    (stmts_of(b.0@), b.1)
}

pub open spec fn node_tree(n: Option<AstNode>) -> Option<NodeTree> {
    match n {
        Some(x) => Some(x.tree()),
        None => None,
    }
}

pub open spec fn body_tree(b: (Vec<Field>, Vec<FunctionNode>)) -> (Seq<FieldTree>, Seq<FunctionTree>) {
    (fields_of(b.0@), functions_of(b.1@))
}

/// A member of a class or interface body.
pub enum MemberNode {
    Field(Field),
    Method(FunctionNode),
    Nothing,
}

impl MemberNode {
    pub open spec fn tree(self) -> Member {
        match self {
            MemberNode::Field(f) => Member::Field(f.tree()),
            MemberNode::Method(f) => Member::Method(f.tree()),
            MemberNode::Nothing => Member::Nothing,
        }
    }
}

pub open spec fn data_tree(d: Option<Vec<EnumVariantField>>) -> Option<Seq<EnumVariantFieldTree>> {
    match d {
        Some(v) => Some(enum_variant_fields_of(v@)),
        None => None,
    }
}

impl AstNode {
    /// The node as a statement inside a block, where it has a place there.
    pub fn into_statement(self) -> (r: Option<StatementNode>)
        ensures
            match r {
                Some(s) => into_statement(self.tree()) == Some(s.tree()),
                None => into_statement(self.tree()) is None,
            },
    {
        proof {
            ast_node_variant(self);
        }
        match self {
            AstNode::Statement(s) => Some(s),
            AstNode::Function(f) => {
                let span = f.span;
                Some(StatementNode { kind: StatementKind::Function(Box::new(f)), span })
            },
            _ => None,
        }
    }
}

/// The statements among some nodes.
pub fn collect_statements(nodes: Vec<AstNode>) -> (r: Vec<StatementNode>)
    ensures
        stmts_of(r@) == statements_in(nodes_of(nodes@)),
{
    let ghost all = nodes@;
    let mut out: Vec<StatementNode> = Vec::new();
    proof {
        reveal(statements_in);
        assert(all.take(0) =~= seq![]);
    }
    for node in it: nodes
        invariant
            it.seq() == all,
            stmts_of(out@) == statements_in(nodes_of(all.take(it.index() as int))),
    {
        proof {
            reveal(statements_in);
            let i = it.index() as int;
            assert(all.take(i + 1) =~= all.take(i).push(node));
            nodes_of_push(all.take(i), node);
            assert(nodes_of(all.take(i)).push(node.tree()).drop_last() =~= nodes_of(all.take(i)));
        }
        match node.into_statement() {
            Some(s) => {
                out.push(s);
            },
            None => {},
        }
    }
    assert(all.take(all.len() as int) =~= all);
    out
}

/// Whether an expression is a literal.
fn is_literal_expression(expr: &ExpressionNode) -> (r: bool)
    ensures
        r == (expr.tree().kind is Literal),
{
    proof {
        expression_kind_variant(expr.kind);
    }
    matches!(expr.kind, ExpressionKind::Literal(_))
}

/// The statements that a node stands for, where it is a statement.
fn body_of(node: AstNode) -> (r: Option<Vec<StatementNode>>)
    ensures
        match r {
            Some(body) => node.tree() is Statement && stmts_of(body@) == unblock(
                node.tree()->Statement_0,
            ),
            None => !(node.tree() is Statement),
        },
{
    proof {
        ast_node_variant(node);
    }
    match node {
        AstNode::Statement(s) => Some(unblocked(s)),
        _ => None,
    }
}

/// Why `name` cannot be declared as a class method, if it cannot.
///
/// The compiler synthesizes these on every class: `new` builds an instance,
/// the deserializers build one from a document. A declared method of the same
/// name would be silently replaced by the synthesized one.
pub fn reserved_class_method_error(name: &str) -> (r: Option<String>)
    ensures
        match r {
            Some(s) => reserved_method(name@) == Some(s@),
            None => reserved_method(name@) is None,
        },
{
    proof {
        reveal(reserved_method);
    }
    let purpose = if same(name, "new") {
        "class constructors"
    } else if same(name, "from_json") {
        "building an instance from a JSON object"
    } else if same(name, "list_from_json") {
        "building a list of instances from a JSON array"
    } else if same(name, "list_from_csv") {
        "building a list of instances from CSV rows"
    } else {
        return None;
    };
    let mut out = cat("'", name);
    out.append("' is reserved for ");
    out.append(purpose);
    out.append(" and cannot be defined as a class method");
    Some(out)
}

/// The statements that a statement stands for: a block for those in it.
fn unblocked(s: StatementNode) -> (r: Vec<StatementNode>)
    ensures
        stmts_of(r@) == unblock(s.tree()),
{
    proof {
        reveal(unblock);
    }
    proof {
        statement_kind_variant(s.kind);
    }
    match s {
        StatementNode { kind: StatementKind::Block(b), .. } => b,
        other => {
            let mut one: Vec<StatementNode> = Vec::new();
            one.push(other);
            one
        },
    }
}

/// Whether a field's type is one of the class's type parameters.
fn is_field_generic_param(field_type: &TypeNode, type_param_names: &Vec<TypeParam>) -> (r: bool)
    ensures
        r == is_type_parameter(field_type.tree(), type_params_of(type_param_names@)),
{
    proof {
        reveal(is_type_parameter);
    }
    proof {
        type_kind_variant(field_type.kind);
    }
    match &field_type.kind {
        TypeKind::Named(name, type_args) => {
            assert(field_type.kind == TypeKind::Named(*name, *type_args));
            let ghost params = type_params_of(type_param_names@);
            if type_args.len() > 0 {
                return false;
            }
            let mut i: usize = 0;
            while i < type_param_names.len()
                invariant
                    i <= type_param_names@.len(),
                    params == type_params_of(type_param_names@),
                    params.len() == type_param_names@.len(),
                    field_type.tree().kind == crate::ast::tree::TypeShape::Named(
                        name@,
                        crate::ast::tree::types_of(type_args@),
                    ),
                    type_args@.len() == 0,
                    forall|j: int| 0 <= j < i ==> (#[trigger] params[j]).name != name@,
                decreases type_param_names@.len() - i,
            {
                proof {
                    reveal(is_type_parameter);
                }
                assert(params[i as int] == type_param_names@[i as int].tree());
                if same(type_param_names[i].name.as_str(), name.as_str()) {
                    return true;
                }
                i += 1;
            }
            false
        },
        _ => false,
    }
}

impl<'a> Parser<'a> {
    /// Parses all tokens. The nodes that could be parsed come with the errors
    /// where there are any.
    pub fn parse(&mut self) -> (r: Result<Vec<AstNode>, (Vec<AstNode>, Vec<ParserError>)>)
        requires
            old(self).wf(),
        ensures
            went(*old(self), *final(self)),
            ({
                let (s, nodes) = program(old(self).tokens@, old(self).st(), seq![]);
                &&& final(self).st() == (State { errors: seq![], ..s })
                &&& final(self).current == final(self).tokens@.len() || final(self).stopped
                &&& match r {
                    Ok(n) => nodes_of(n@) == nodes && s.errors.len() == 0,
                    Err(ne) => {
                        &&& nodes_of(ne.0@) == nodes
                        &&& s.errors.len() > 0
                        &&& faults(ne.1@) == s.errors
                        &&& ne.1@.len() <= MAX_ERRORS
                        &&& ne.1@.len() == MAX_ERRORS ==> ne.1@.last().code
                            == DiagnosticCode::ParseErrorLimit
                    },
                }
            }),
    {
        let ghost ts = self.tokens@;
        let mut nodes: Vec<AstNode> = Vec::new();
        while !self.is_at_end() && !self.stopped
            invariant
                went(*old(self), *self),
                ts == self.tokens@,
                program(ts, old(self).st(), seq![]) == program(
                    ts,
                    self.st(),
                    nodes_of(nodes@),
                ),
            decreases ts.len() - self.current,
        {
            proof {
                program_def(ts, self.st(), nodes_of(nodes@));
            }
            let start_position: usize = self.current;
            match self.declaration() {
                Some(node) => {
                    let check = Self::node_needs_newline(&node);
                    nodes.push(node);
                    if check {
                        match self.check_statement_termination() {
                            Err(e) => {
                                self.record_error(e);
                                self.synchronize();
                            },
                            Ok(_) => {},
                        }
                    }
                },
                None => {
                    if self.current == start_position {
                        self.advance();
                    }
                },
            }
            self.skip_newlines();
        }
        proof {
            program_def(ts, self.st(), nodes_of(nodes@));
        }
        let mut all_errors: Vec<ParserError> = Vec::new();
        all_errors.append(&mut self.errors);
        assert(faults(self.errors@) =~= seq![]);
        if all_errors.len() == 0 {
            Ok(nodes)
        } else {
            Err((nodes, all_errors))
        }
    }

    /// Whether a newline must follow a top-level node.
    fn node_needs_newline(node: &AstNode) -> (r: bool)
        ensures
            r == needs_newline(node.tree()),
    {
        proof {
            reveal(needs_newline);
        }
        proof {
            ast_node_variant(*node);
        }
        match node {
            AstNode::Statement(s) => {
                assert(*node == AstNode::Statement(*s));
                proof {
                    statement_kind_variant(s.kind);
                }
                match &s.kind {
                StatementKind::If { .. }
                | StatementKind::While { .. }
                | StatementKind::For { .. }
                | StatementKind::Match { .. }
                | StatementKind::Block(_) => false,
                _ => true,
                }
            },
            _ => false,
        }
    }

    /// The next declaration. A malformed one is recorded and skipped; there is
    /// none at the end, at the brace that closes the enclosing body, and once
    /// the error limit is reached.
    pub fn declaration(&mut self) -> (r: Option<AstNode>)
        requires
            old(self).wf(),
        ensures
            went(*old(self), *final(self)),
            r is Some ==> old(self).current < final(self).current,
            (final(self).st(), Ok::<Option<NodeTree>, Fault>(node_tree(r))) == declaration(
                old(self).tokens@,
                old(self).st(),
            ),
        decreases old(self).tokens@.len() - old(self).current, 180int,
    {
        let ghost ts = self.tokens@;
        loop
            invariant
                went(*old(self), *self),
                ts == self.tokens@,
                declaration(ts, old(self).st()) == declaration(ts, self.st()),
            decreases ts.len() - self.current,
        {
            proof {
                declaration_def(ts, self.st());
            }
            self.skip_newlines();
            if self.is_at_end() {
                return None;
            }
            let start_position: usize = self.current;
            let result = self.parse_declaration_content();
            self.skip_newlines();
            match result {
                Ok(node) => {
                    return node;
                },
                Err(e) => {
                    self.record_error(e);
                    if self.stopped || self.is_at_end() || self.check(TokenType::CloseBrace) {
                        return None;
                    }
                    if self.current == start_position {
                        self.current += 1;
                    }
                },
            }
        }
    }

    /// A declaration or a statement, by its first token.
    pub(crate) fn parse_declaration_content(&mut self) -> (r: ParserResult<Option<AstNode>>)
        requires
            old(self).wf(),
            old(self).current < old(self).tokens@.len(),
        ensures
            went(*old(self), *final(self)),
            r matches Ok(Some(_)) ==> old(self).current < final(self).current,
            step(final(self).st(), r, |n: Option<AstNode>| node_tree(n)) == declaration_content(old(self).tokens@, old(self).st()),
        decreases old(self).tokens@.len() - old(self).current, 170int,
    {
        proof {
            declaration_content_def(self.tokens@, self.st());
        }
        if self.check(TokenType::Auto) {
            let d = match self.auto_declaration() {
                Ok(v) => v,
                Err(e) => {
                    return Err(e);
                },
            };
            return Ok(Some(AstNode::Statement(d)));
        }
        if self.check(TokenType::Const) {
            let d = match self.const_declaration() {
                Ok(v) => v,
                Err(e) => {
                    return Err(e);
                },
            };
            return Ok(Some(AstNode::Statement(d)));
        }
        if self.take(TokenType::Common) {
            let f = match self.function_declaration(true) {
                Ok(v) => v,
                Err(e) => {
                    return Err(e);
                },
            };
            return Ok(Some(AstNode::Function(f)));
        }
        if self.check(TokenType::Func) {
            let f = match self.function_declaration(false) {
                Ok(v) => v,
                Err(e) => {
                    return Err(e);
                },
            };
            return Ok(Some(AstNode::Function(f)));
        }
        if matches!(self.peek().token_type, TokenType::Id(_)) {
            return self.parse_id_start_declaration();
        }
        if self.check(TokenType::Class) {
            let d = match self.class_declaration() {
                Ok(v) => v,
                Err(e) => {
                    return Err(e);
                },
            };
            return Ok(Some(d));
        }
        if self.check(TokenType::Interface) {
            let d = match self.interface_declaration() {
                Ok(v) => v,
                Err(e) => {
                    return Err(e);
                },
            };
            return Ok(Some(d));
        }
        if self.check(TokenType::Enum) {
            let d = match self.enum_declaration() {
                Ok(v) => v,
                Err(e) => {
                    return Err(e);
                },
            };
            return Ok(Some(d));
        }
        if self.check(TokenType::Import) {
            let d = match self.import_declaration() {
                Ok(v) => v,
                Err(e) => {
                    return Err(e);
                },
            };
            return Ok(Some(AstNode::Statement(d)));
        }
        let d = match self.statement() {
            Ok(v) => v,
            Err(e) => {
                return Err(e);
            },
        };
        Ok(Some(d))
    }

    /// A typed declaration where a type, a name and `=` follow, or else a
    /// statement.
    pub(crate) fn parse_id_start_declaration(&mut self) -> (r: ParserResult<Option<AstNode>>)
        requires
            old(self).wf(),
        ensures
            went(*old(self), *final(self)),
            r matches Ok(Some(_)) ==> old(self).current < final(self).current,
            step(final(self).st(), r, |n: Option<AstNode>| node_tree(n)) == id_declaration(old(self).tokens@, old(self).st()),
        decreases old(self).tokens@.len() - old(self).current, 165int,
    {
        proof {
            id_declaration_def(self.tokens@, self.st());
        }
        let start: usize = self.current;
        let is_type = self.parse_type().is_ok();
        let typed = is_type && matches!(self.peek().token_type, TokenType::Id(_)) && self.ahead(
            1,
            TokenType::Eq,
        );
        self.current = start;
        if typed {
            return self.parse_typed_declaration_with_recovery();
        }
        let d = match self.statement() {
            Ok(v) => v,
            Err(e) => {
                return Err(e);
            },
        };
        Ok(Some(d))
    }

    /// A typed declaration; a missing newline behind it is recovered from.
    pub(crate) fn parse_typed_declaration_with_recovery(&mut self) -> (r: ParserResult<Option<AstNode>>)
        requires
            old(self).wf(),
        ensures
            went(*old(self), *final(self)),
            r matches Ok(Some(_)) ==> old(self).current < final(self).current,
            step(final(self).st(), r, |n: Option<AstNode>| node_tree(n)) == typed_recovery(old(self).tokens@, old(self).st()),
        decreases old(self).tokens@.len() - old(self).current, 160int,
    {
        proof {
            typed_recovery_def(self.tokens@, self.st());
        }
        proof {
            reveal(recoverable);
        }
        match self.typed_declaration() {
            Ok(node) => Ok(Some(AstNode::Statement(node))),
            Err(e) => {
                if same(e.message.as_str(), "must be terminated with a newline") || same(
                    e.message.as_str(),
                    "expected newline after statement",
                ) {
                    self.record_error(e);
                    self.synchronize();
                    Ok(None)
                } else {
                    Err(e)
                }
            },
        }
    }

    /// A declaration with `auto`.
    pub(crate) fn auto_declaration(&mut self) -> (r: ParserResult<StatementNode>)
        requires
            old(self).wf(),
            old(self).current < old(self).tokens@.len(),
        ensures
            went(*old(self), *final(self)),
            r is Ok ==> old(self).current < final(self).current,
            step(final(self).st(), r, |s: StatementNode| s.tree()) == auto_declaration(old(self).tokens@, old(self).st()),
        decreases old(self).tokens@.len() - old(self).current, 150int,
    {
        proof {
            auto_declaration_def(self.tokens@, self.st());
        }
        let start_span = self.peek().span;
        self.current += 1;
        let name = match self.consume_identifier("Expected variable name after 'auto'") {
            Ok(v) => v,
            Err(e) => {
                return Err(e);
            },
        };
        let name_span = self.previous().span;
        match self.consume_token(TokenType::Eq, "Expected '=' after variable name") {
            Ok(v) => v,
            Err(e) => {
                return Err(e);
            },
        };
        let value = match self.parse_expression() {
            Ok(v) => v,
            Err(e) => {
                return Err(e);
            },
        };
        match check_no_postfix_increment_decrement(&value) {
            Ok(v) => v,
            Err(e) => {
                return Err(e);
            },
        };
        if self.is_in_block() {
            self.skip_newlines();
        } else if !self.is_at_end() {
            let next_token = self.tokens[self.current];
            if Self::is_statement_starter(&next_token.token_type) && !matches!(
                self.previous().token_type,
                TokenType::NewLine
            ) {
                return Err(
                    ParserError::new(
                        DiagnosticCode::ParseExpectedToken,
                        "Expected newline after statement",
                        next_token.span,
                    ),
                );
            }
        }
        let span = combine(start_span, value.span);
        Ok(
            StatementNode { kind: StatementKind::AutoDecl(
                    name,
                    TypeNode { kind: TypeKind::Auto, span: name_span },
                    value,
                ),
                span,
            },
        )
    }

    /// A constant.
    pub(crate) fn const_declaration(&mut self) -> (r: ParserResult<StatementNode>)
        requires
            old(self).wf(),
            old(self).current < old(self).tokens@.len(),
        ensures
            went(*old(self), *final(self)),
            r is Ok ==> old(self).current < final(self).current,
            step(final(self).st(), r, |s: StatementNode| s.tree()) == const_declaration(old(self).tokens@, old(self).st()),
        decreases old(self).tokens@.len() - old(self).current, 150int,
    {
        proof {
            const_declaration_def(self.tokens@, self.st());
        }
        let start_span = self.peek().span;
        self.current += 1;
        let type_node = match self.parse_type() {
            Ok(v) => v,
            Err(e) => {
                return Err(e);
            },
        };
        let name = match self.consume_identifier("Expected constant name after type") {
            Ok(v) => v,
            Err(e) => {
                return Err(e);
            },
        };
        match self.consume_token(TokenType::Eq, "Expected '=' after constant name") {
            Ok(v) => v,
            Err(e) => {
                return Err(e);
            },
        };
        let value = match self.parse_expression() {
            Ok(v) => v,
            Err(e) => {
                return Err(e);
            },
        };
        match check_no_postfix_increment_decrement(&value) {
            Ok(v) => v,
            Err(e) => {
                return Err(e);
            },
        };
        let span = combine(start_span, value.span);
        Ok(StatementNode { kind: StatementKind::ConstDecl(name, type_node, value), span })
    }

    /// A declaration with a type, with or without an initialiser.
    pub(crate) fn typed_declaration(&mut self) -> (r: ParserResult<StatementNode>)
        requires
            old(self).wf(),
        ensures
            went(*old(self), *final(self)),
            r is Ok ==> old(self).current < final(self).current,
            step(final(self).st(), r, |s: StatementNode| s.tree()) == typed_declaration(old(self).tokens@, old(self).st()),
        decreases old(self).tokens@.len() - old(self).current, 150int,
    {
        proof {
            typed_declaration_def(self.tokens@, self.st());
        }
        let start_span = self.peek().span;
        let type_node = match self.parse_type() {
            Ok(v) => v,
            Err(e) => {
                return Err(e);
            },
        };
        let name = match self.consume_identifier("Expected variable name after type") {
            Ok(v) => v,
            Err(e) => {
                return Err(e);
            },
        };
        if !self.take(TokenType::Eq) {
            let name_span = self.previous().span;
            return Ok(
                StatementNode { kind: StatementKind::UninitDecl(name, type_node),
                    span: combine(start_span, name_span),
                },
            );
        }
        let value = match self.parse_expression() {
            Ok(v) => v,
            Err(e) => {
                return Err(e);
            },
        };
        match check_no_postfix_increment_decrement(&value) {
            Ok(v) => v,
            Err(e) => {
                return Err(e);
            },
        };
        let span = combine(start_span, value.span);
        Ok(StatementNode { kind: StatementKind::TypedDecl(name, type_node, value), span })
    }

    /// A class.
    pub(crate) fn class_declaration(&mut self) -> (r: ParserResult<AstNode>)
        requires
            old(self).wf(),
        ensures
            went(*old(self), *final(self)),
            r is Ok ==> old(self).current < final(self).current,
            step(final(self).st(), r, |n: AstNode| n.tree()) == class_declaration(old(self).tokens@, old(self).st()),
        decreases old(self).tokens@.len() - old(self).current, 150int,
    {
        proof {
            class_declaration_def(self.tokens@, self.st());
        }
        let start_span = match self.consume_token(TokenType::Class, "Expected 'class' keyword") {
            Ok(v) => v,
            Err(e) => {
                return Err(e);
            },
        };
        let name = match self.consume_identifier("Expected class name") {
            Ok(v) => v,
            Err(e) => {
                return Err(e);
            },
        };
        let type_params = match self.parse_type_params_list(Bounds::Class) {
            Ok(v) => v,
            Err(e) => {
                return Err(e);
            },
        };
        let traits = match self.parse_trait_list() {
            Ok(v) => v,
            Err(e) => {
                return Err(e);
            },
        };
        match self.consume_token(TokenType::OpenBrace, "Expected '{' after class header") {
            Ok(v) => v,
            Err(e) => {
                return Err(e);
            },
        };
        let (fields, methods) = self.parse_class_body(&type_params);
        let end_span = match self.consume_token(
            TokenType::CloseBrace,
            "Expected '}' after class body",
        ) {
            Ok(v) => v,
            Err(e) => {
                return Err(e);
            },
        };
        let where_clause = match self.parse_where_clause() {
            Ok(v) => v,
            Err(e) => {
                return Err(e);
            },
        };
        let span = match &where_clause {
            Some(clause) => combine(start_span, clause.span),
            None => combine(start_span, end_span),
        };
        Ok(AstNode::Class { name, type_params, traits, fields, methods, where_clause, span })
    }

    /// The members of a class. A malformed member is recorded and skipped as a
    /// balanced unit, so that it does not take the rest of the class with it.
    fn parse_class_body(&mut self, type_params: &Vec<TypeParam>) -> (r: (Vec<Field>, Vec<FunctionNode>))
        requires
            old(self).wf(),
        ensures
            went(*old(self), *final(self)),
            (final(self).st(), Ok::<(Seq<FieldTree>, Seq<FunctionTree>), Fault>(body_tree(r)))
                == class_body(
                old(self).tokens@,
                old(self).st(),
                type_params_of(type_params@),
                seq![],
                seq![],
            ),
        decreases old(self).tokens@.len() - old(self).current, 200int,
    {
        let ghost ts = self.tokens@;
        let ghost params = type_params_of(type_params@);
        let mut fields: Vec<Field> = Vec::new();
        let mut methods: Vec<FunctionNode> = Vec::new();
        while !self.check(TokenType::CloseBrace) && !self.is_at_end()
            invariant
                went(*old(self), *self),
                ts == self.tokens@,
                params == type_params_of(type_params@),
                class_body(ts, old(self).st(), params, seq![], seq![]) == class_body(
                    ts,
                    self.st(),
                    params,
                    fields_of(fields@),
                    functions_of(methods@),
                ),
            decreases ts.len() - self.current,
        {
            proof {
                class_body_def(ts, self.st(), params, fields_of(fields@), functions_of(methods@));
            }
            let member_start: usize = self.current;
            match self.parse_class_member(type_params) {
                Ok(MemberNode::Field(f)) => {
                    fields.push(f);
                },
                Ok(MemberNode::Method(f)) => {
                    methods.push(f);
                },
                Ok(MemberNode::Nothing) => {},
                Err(e) => {
                    self.record_error(e);
                    self.current = member_start;
                    let end = self.malformed_member_end();
                    if end == member_start {
                        self.current = member_start + 1;
                    } else {
                        self.current = end;
                    }
                },
            }
        }
        proof {
            class_body_def(ts, self.st(), params, fields_of(fields@), functions_of(methods@));
        }
        (fields, methods)
    }

    /// Where a malformed class member ends. Matched brace pairs are taken
    /// together; it ends behind its newline, or at the brace that closes the
    /// class.
    fn malformed_member_end(&self) -> (r: usize)
        requires
            self.wf(),
        ensures
            r == member_end(self.tokens@, self.current as int, 0),
            self.current <= r <= self.tokens@.len(),
    {
        proof {
            reveal(member_end);
        }
        let mut depth: usize = 0;
        let mut p: usize = self.current;
        while p < self.tokens.len()
            invariant
                self.wf(),
                self.current <= p <= self.tokens@.len(),
                depth <= p,
                member_end(self.tokens@, self.current as int, 0) == member_end(
                    self.tokens@,
                    p as int,
                    depth as int,
                ),
            decreases self.tokens@.len() - p,
        {
            proof {
                reveal(member_end);
            }
            match &self.tokens[p].token_type {
                TokenType::OpenBrace => {
                    depth += 1;
                },
                TokenType::CloseBrace => {
                    if depth == 0 {
                        return p;
                    }
                    depth -= 1;
                },
                TokenType::NewLine => {
                    if depth == 0 {
                        return p + 1;
                    }
                },
                _ => {},
            }
            p += 1;
        }
        p
    }

    /// A method of a class, unless its name is reserved, which is recorded.
    fn class_method(&mut self, f: FunctionNode, name_at: usize) -> (r: MemberNode)
        requires
            old(self).wf(),
        ensures
            went(*old(self), *final(self)),
            (final(self).st(), Ok::<Member, Fault>(r.tree())) == class_method(
                old(self).tokens@,
                old(self).st(),
                name_at as int,
                f.tree(),
            ),
            final(self).current == old(self).current,
    {
        match reserved_class_method_error(f.name.as_str()) {
            Some(message) => {
                let span = if name_at < self.tokens.len() {
                    self.tokens[name_at].span
                } else {
                    f.span
                };
                self.record_error(
                    ParserError::new(
                        DiagnosticCode::ParseExpectedToken,
                        message.as_str(),
                        span,
                    ),
                );
                MemberNode::Nothing
            },
            None => MemberNode::Method(f),
        }
    }

    /// A member of a class.
    pub(crate) fn parse_class_member(&mut self, type_params: &Vec<TypeParam>) -> (r: ParserResult<MemberNode>)
        requires
            old(self).wf(),
            old(self).current < old(self).tokens@.len(),
        ensures
            went(*old(self), *final(self)),
            r is Ok ==> old(self).current < final(self).current,
            step(final(self).st(), r, |m: MemberNode| m.tree()) == class_member(old(self).tokens@, old(self).st(), type_params_of(type_params@)),
        decreases old(self).tokens@.len() - old(self).current, 155int,
    {
        proof {
            class_member_def(self.tokens@, self.st(), type_params_of(type_params@));
        }
        let at: usize = self.current;
        let token = self.tokens[self.current];
        match &token.token_type {
            TokenType::Func => {
                let f = match self.function_declaration(false) {
                    Ok(v) => v,
                    Err(e) => {
                        return Err(e);
                    },
                };
                Ok(self.class_method(f, at + 1))
            },
            TokenType::Common => {
                self.current += 1;
                let f = match self.function_declaration(true) {
                    Ok(v) => v,
                    Err(e) => {
                        return Err(e);
                    },
                };
                Ok(self.class_method(f, at + 2))
            },
            TokenType::Id(_) | TokenType::Const => {
                let f = match self.parse_field_declaration(type_params) {
                    Ok(v) => v,
                    Err(e) => {
                        return Err(e);
                    },
                };
                Ok(MemberNode::Field(f))
            },
            TokenType::NewLine => {
                match self.consume_token(TokenType::NewLine, "Expected newline") {
                    Ok(v) => v,
                    Err(e) => {
                        return Err(e);
                    },
                };
                Ok(MemberNode::Nothing)
            },
            _ => {
                let message = cat(
                    "Expected field or method declaration in class body, found ",
                    describe_token(&token.token_type).as_str(),
                );
                Err(
                    ParserError::with_help(
                        DiagnosticCode::ParseExpectedToken,
                        message.as_str(),
                        token.span,
                        "Class bodies can only contain field declarations (e.g., 'int x = 0') and method declarations (e.g., 'func foo() returns void { ... }')",
                    ),
                )
            },
        }
    }

    /// A field.
    pub(crate) fn parse_field_declaration(&mut self, type_params: &Vec<TypeParam>) -> (r: ParserResult<Field>)
        requires
            old(self).wf(),
        ensures
            went(*old(self), *final(self)),
            r is Ok ==> old(self).current < final(self).current,
            step(final(self).st(), r, |f: Field| f.tree()) == field_declaration(old(self).tokens@, old(self).st(), type_params_of(type_params@)),
        decreases old(self).tokens@.len() - old(self).current, 100int,
    {
        proof {
            field_declaration_def(self.tokens@, self.st(), type_params_of(type_params@));
        }
        let is_const = self.take(TokenType::Const);
        let type_ = match self.parse_type() {
            Ok(v) => v,
            Err(e) => {
                return Err(e);
            },
        };
        let name = match self.consume_identifier("Expected field name") {
            Ok(v) => v,
            Err(e) => {
                return Err(e);
            },
        };
        let default_value = match self.parse_field_default() {
            Ok(v) => v,
            Err(e) => {
                return Err(e);
            },
        };
        if is_const && default_value.is_none() {
            return Err(
                ParserError::with_help(
                    DiagnosticCode::ParseExpectedToken,
                    "Const fields must have a default value",
                    self.previous().span,
                    "Add a default value to the const field. Example: const int MAX_SIZE = 100",
                ),
            );
        }
        let is_generic_param = is_field_generic_param(&type_, type_params);
        let where_clause = match self.parse_same_line_where() {
            Ok(v) => v,
            Err(e) => {
                return Err(e);
            },
        };
        Ok(Field { name, type_, is_generic_param, is_const, default_value, where_clause })
    }

    /// The default value of a field, where it has one.
    pub(crate) fn parse_field_default(&mut self) -> (r: ParserResult<Option<ExpressionNode>>)
        requires
            old(self).wf(),
        ensures
            went(*old(self), *final(self)),
            step(final(self).st(), r, |e: Option<ExpressionNode>| expr_tree(e)) == field_default(old(self).tokens@, old(self).st()),
        decreases old(self).tokens@.len() - old(self).current, 90int,
    {
        proof {
            field_default_def(self.tokens@, self.st());
        }
        if self.take(TokenType::Eq) {
            let e = match self.parse_expression() {
                Ok(v) => v,
                Err(e) => {
                    return Err(e);
                },
            };
            Ok(Some(e))
        } else {
            Ok(None)
        }
    }

    /// A `where` block on the same line.
    pub(crate) fn parse_same_line_where(&mut self) -> (r: ParserResult<Option<WhereClause>>)
        requires
            old(self).wf(),
        ensures
            went(*old(self), *final(self)),
            step(final(self).st(), r, |c: Option<WhereClause>| clause_tree(c)) == same_line_where(old(self).tokens@, old(self).st()),
        decreases old(self).tokens@.len() - old(self).current, 90int,
    {
        proof {
            same_line_where_def(self.tokens@, self.st());
        }
        if self.check(TokenType::Where) {
            self.parse_where_clause()
        } else {
            Ok(None)
        }
    }

    /// An interface.
    pub(crate) fn interface_declaration(&mut self) -> (r: ParserResult<AstNode>)
        requires
            old(self).wf(),
        ensures
            went(*old(self), *final(self)),
            r is Ok ==> old(self).current < final(self).current,
            step(final(self).st(), r, |n: AstNode| n.tree()) == interface_declaration(old(self).tokens@, old(self).st()),
        decreases old(self).tokens@.len() - old(self).current, 150int,
    {
        proof {
            interface_declaration_def(self.tokens@, self.st());
        }
        let start_span = match self.consume_token(
            TokenType::Interface,
            "Expected 'interface' keyword",
        ) {
            Ok(v) => v,
            Err(e) => {
                return Err(e);
            },
        };
        let name = match self.consume_identifier("Expected interface name") {
            Ok(v) => v,
            Err(e) => {
                return Err(e);
            },
        };
        let type_params = match self.parse_type_params_list(Bounds::Colon) {
            Ok(v) => v,
            Err(e) => {
                return Err(e);
            },
        };
        match self.consume_token(TokenType::OpenBrace, "Expected '{' after interface header") {
            Ok(v) => v,
            Err(e) => {
                return Err(e);
            },
        };
        let (fields, methods) = match self.parse_interface_body(&type_params, start_span) {
            Ok(v) => v,
            Err(e) => {
                return Err(e);
            },
        };
        let end_span = match self.consume_token(
            TokenType::CloseBrace,
            "Expected '}' after interface body",
        ) {
            Ok(v) => v,
            Err(e) => {
                return Err(e);
            },
        };
        let span = combine(start_span, end_span);
        Ok(AstNode::Interface { name, type_params, fields, methods, span })
    }

    /// The members of an interface.
    pub(crate) fn parse_interface_body(&mut self, type_params: &Vec<TypeParam>, start_span: Span) -> (r: ParserResult<(Vec<Field>, Vec<FunctionNode>)>)
        requires
            old(self).wf(),
        ensures
            went(*old(self), *final(self)),
            step(final(self).st(), r, |b: (Vec<Field>, Vec<FunctionNode>)| body_tree(b)) == interface_body(old(self).tokens@, old(self).st(), type_params_of(type_params@), start_span, seq![], seq![]),
        decreases old(self).tokens@.len() - old(self).current, 200int,
    {
        proof {
            interface_body_def(self.tokens@, self.st(), type_params_of(type_params@), start_span, seq![], seq![]);
        }
        let ghost ts = self.tokens@;
        let ghost params = type_params_of(type_params@);
        let mut fields: Vec<Field> = Vec::new();
        let mut methods: Vec<FunctionNode> = Vec::new();
        loop
            invariant
                went(*old(self), *self),
                ts == self.tokens@,
                params == type_params_of(type_params@),
                interface_body(ts, old(self).st(), params, start_span, seq![], seq![])
                    == interface_body(
                    ts,
                    self.st(),
                    params,
                    start_span,
                    fields_of(fields@),
                    functions_of(methods@),
                ),
            decreases ts.len() - self.current,
        {
            proof {
                interface_body_def(ts, self.st(), params, start_span, fields_of(fields@), functions_of(methods@));
            }
            if self.is_at_end() {
                return Ok((fields, methods));
            }
            self.skip_newlines();
            if self.check(TokenType::CloseBrace) {
                return Ok((fields, methods));
            }
            if self.is_at_end() {
                return Err(self.missing_error("Expected newline"));
            }
            let member = match self.parse_interface_member(type_params, start_span) {
                Ok(v) => v,
                Err(e) => {
                    return Err(e);
                },
            };
            match member {
                MemberNode::Field(f) => {
                    fields.push(f);
                },
                MemberNode::Method(f) => {
                    methods.push(f);
                },
                MemberNode::Nothing => {},
            }
        }
    }

    /// A member of an interface.
    pub(crate) fn parse_interface_member(&mut self, type_params: &Vec<TypeParam>, start_span: Span) -> (r: ParserResult<MemberNode>)
        requires
            old(self).wf(),
            old(self).current < old(self).tokens@.len(),
        ensures
            went(*old(self), *final(self)),
            r is Ok ==> old(self).current < final(self).current,
            step(final(self).st(), r, |m: MemberNode| m.tree()) == interface_member(old(self).tokens@, old(self).st(), type_params_of(type_params@), start_span),
        decreases old(self).tokens@.len() - old(self).current, 155int,
    {
        proof {
            interface_member_def(self.tokens@, self.st(), type_params_of(type_params@), start_span);
        }
        let token = self.tokens[self.current];
        match &token.token_type {
            TokenType::Func => {
                let f = match self.parse_interface_method(start_span) {
                    Ok(v) => v,
                    Err(e) => {
                        return Err(e);
                    },
                };
                Ok(MemberNode::Method(f))
            },
            TokenType::Id(_) | TokenType::Const => {
                let f = match self.parse_field_declaration(type_params) {
                    Ok(v) => v,
                    Err(e) => {
                        return Err(e);
                    },
                };
                Ok(MemberNode::Field(f))
            },
            TokenType::NewLine => {
                match self.consume_token(TokenType::NewLine, "Expected newline") {
                    Ok(v) => v,
                    Err(e) => {
                        return Err(e);
                    },
                };
                Ok(MemberNode::Nothing)
            },
            _ => Err(
                ParserError::new(
                    DiagnosticCode::ParseExpectedToken,
                    "Expected field or function declaration in interface",
                    token.span,
                ),
            ),
        }
    }

    /// A method of an interface, which has no body.
    pub(crate) fn parse_interface_method(&mut self, start_span: Span) -> (r: ParserResult<FunctionNode>)
        requires
            old(self).wf(),
            old(self).current < old(self).tokens@.len(),
        ensures
            went(*old(self), *final(self)),
            r is Ok ==> old(self).current < final(self).current,
            step(final(self).st(), r, |f: FunctionNode| f.tree()) == interface_method(old(self).tokens@, old(self).st(), start_span),
        decreases old(self).tokens@.len() - old(self).current, 100int,
    {
        proof {
            interface_method_def(self.tokens@, self.st(), start_span);
        }
        self.current += 1;
        let name = match self.consume_identifier("Expected method name") {
            Ok(v) => v,
            Err(e) => {
                return Err(e);
            },
        };
        let type_params = match self.parse_type_params_list(Bounds::Bare) {
            Ok(v) => v,
            Err(e) => {
                return Err(e);
            },
        };
        match self.consume_token(TokenType::OpenParen, "Expected '(' after method name") {
            Ok(v) => v,
            Err(e) => {
                return Err(e);
            },
        };
        let params = match self.parse_param_list() {
            Ok(v) => v,
            Err(e) => {
                return Err(e);
            },
        };
        match self.consume_token(TokenType::CloseParen, "Expected ')' after parameters") {
            Ok(v) => v,
            Err(e) => {
                return Err(e);
            },
        };
        let where_clause = match self.parse_where_clause() {
            Ok(v) => v,
            Err(e) => {
                return Err(e);
            },
        };
        if where_clause.is_some() {
            // The return type may continue on the next line after the block,
            // but the newline in front of the next member stays.
            self.skip_newlines_before(TokenType::Returns);
        }
        let return_type = match self.parse_optional_return_type() {
            Ok(v) => v,
            Err(e) => {
                return Err(e);
            },
        };
        let body: Vec<StatementNode> = Vec::new();
        Ok(
            FunctionNode {
                name,
                type_params,
                params,
                return_type,
                body,
                span: start_span,
                is_common: false,
                where_clause,
            },
        )
    }

    /// A return type, or `void` where there is none.
    pub(crate) fn parse_optional_return_type(&mut self) -> (r: ParserResult<TypeNode>)
        requires
            old(self).wf(),
        ensures
            went(*old(self), *final(self)),
            step(final(self).st(), r, |t: TypeNode| t.tree()) == optional_return_type(old(self).tokens@, old(self).st()),
    {
        if self.take(TokenType::Minus) || self.take(TokenType::Gt) || self.take(
            TokenType::Returns,
        ) {
            self.parse_type()
        } else {
            Ok(
                TypeNode { kind: TypeKind::Primitive(PrimitiveType::Void),
                    span: self.peek().span,
                },
            )
        }
    }

    /// Parameters without default values.
    pub(crate) fn parse_param_list(&mut self) -> (r: ParserResult<Vec<Param>>)
        requires
            old(self).wf(),
        ensures
            went(*old(self), *final(self)),
            step(final(self).st(), r, |v: Vec<Param>| params_of(v@)) == param_list(old(self).tokens@, old(self).st()),
    {
        let mut params: Vec<Param> = Vec::new();
        if self.check(TokenType::CloseParen) {
            return Ok(params);
        }
        let ghost ts = self.tokens@;
        loop
            invariant
                went(*old(self), *self),
                ts == self.tokens@,
                param_list(ts, old(self).st()) == param_list_from(
                    ts,
                    self.st(),
                    params_of(params@),
                ),
            decreases ts.len() - self.current,
        {
            let type_ = match self.parse_type() {
                Ok(v) => v,
                Err(e) => {
                    return Err(e);
                },
            };
            let name = match self.consume_identifier("Expected parameter name") {
                Ok(v) => v,
                Err(e) => {
                    return Err(e);
                },
            };
            let param = Param { name, type_, default_value: None };
            params.push(param);
            if !self.take(TokenType::Comma) {
                return Ok(params);
            }
        }
    }

    /// An enum.
    pub(crate) fn enum_declaration(&mut self) -> (r: ParserResult<AstNode>)
        requires
            old(self).wf(),
        ensures
            went(*old(self), *final(self)),
            r is Ok ==> old(self).current < final(self).current,
            step(final(self).st(), r, |n: AstNode| n.tree()) == enum_declaration(old(self).tokens@, old(self).st()),
        decreases old(self).tokens@.len() - old(self).current, 150int,
    {
        proof {
            enum_declaration_def(self.tokens@, self.st());
        }
        let start_span = match self.consume_token(TokenType::Enum, "Expected 'enum' keyword") {
            Ok(v) => v,
            Err(e) => {
                return Err(e);
            },
        };
        let name = match self.consume_identifier("Expected enum name") {
            Ok(v) => v,
            Err(e) => {
                return Err(e);
            },
        };
        let type_params = match self.parse_type_params_list(Bounds::Colon) {
            Ok(v) => v,
            Err(e) => {
                return Err(e);
            },
        };
        match self.consume_token(TokenType::OpenBrace, "Expected '{' after enum header") {
            Ok(v) => v,
            Err(e) => {
                return Err(e);
            },
        };
        self.skip_newlines();
        let variants = match self.parse_enum_variants() {
            Ok(v) => v,
            Err(e) => {
                return Err(e);
            },
        };
        let end_span = match self.consume_token(
            TokenType::CloseBrace,
            "Expected '}' after enum variants",
        ) {
            Ok(v) => v,
            Err(e) => {
                return Err(e);
            },
        };
        let span = combine(start_span, end_span);
        Ok(AstNode::Enum { name, type_params, variants, span })
    }

    /// The variants of an enum, with commas between them.
    pub(crate) fn parse_enum_variants(&mut self) -> (r: ParserResult<Vec<EnumVariant>>)
        requires
            old(self).wf(),
        ensures
            went(*old(self), *final(self)),
            step(final(self).st(), r, |v: Vec<EnumVariant>| enum_variants_of(v@)) == enum_variants(old(self).tokens@, old(self).st(), seq![]),
        decreases old(self).tokens@.len() - old(self).current, 110int,
    {
        proof {
            enum_variants_def(self.tokens@, self.st(), seq![]);
        }
        let mut variants: Vec<EnumVariant> = Vec::new();
        let ghost ts = self.tokens@;
        loop
            invariant
                went(*old(self), *self),
                ts == self.tokens@,
                enum_variants(ts, old(self).st(), seq![]) == enum_variants(
                    ts,
                    self.st(),
                    enum_variants_of(variants@),
                ),
            decreases ts.len() - self.current,
        {
            proof {
                enum_variants_def(ts, self.st(), enum_variants_of(variants@));
            }
            if self.check(TokenType::CloseBrace) || self.is_at_end() {
                return Ok(variants);
            }
            let variant = match self.parse_single_enum_variant() {
                Ok(v) => v,
                Err(e) => {
                    return Err(e);
                },
            };
            variants.push(variant);
            if !self.take(TokenType::Comma) {
                self.skip_newlines();
                return Ok(variants);
            }
            self.skip_newlines();
        }
    }

    /// One variant of an enum.
    pub(crate) fn parse_single_enum_variant(&mut self) -> (r: ParserResult<EnumVariant>)
        requires
            old(self).wf(),
        ensures
            went(*old(self), *final(self)),
            r is Ok ==> old(self).current < final(self).current,
            step(final(self).st(), r, |v: EnumVariant| v.tree()) == enum_variant(old(self).tokens@, old(self).st()),
        decreases old(self).tokens@.len() - old(self).current, 100int,
    {
        proof {
            enum_variant_def(self.tokens@, self.st());
        }
        let name = match self.consume_identifier("Expected variant name") {
            Ok(v) => v,
            Err(e) => {
                return Err(e);
            },
        };
        let data = match self.parse_enum_variant_data() {
            Ok(v) => v,
            Err(e) => {
                return Err(e);
            },
        };
        let where_clause = match self.parse_same_line_where() {
            Ok(v) => v,
            Err(e) => {
                return Err(e);
            },
        };
        Ok(EnumVariant { name, data, where_clause })
    }

    /// The payload of a variant, where it has one.
    pub(crate) fn parse_enum_variant_data(&mut self) -> (r: ParserResult<Option<Vec<EnumVariantField>>>)
        requires
            old(self).wf(),
        ensures
            went(*old(self), *final(self)),
            step(final(self).st(), r, |d: Option<Vec<EnumVariantField>>| data_tree(d)) == variant_data(old(self).tokens@, old(self).st()),
    {
        if !self.take(TokenType::OpenParen) {
            return Ok(None);
        }
        let empty: Vec<EnumVariantField> = Vec::new();
        if self.take(TokenType::CloseParen) {
            return Ok(Some(empty));
        }
        let fields = match self.parse_enum_variant_fields() {
            Ok(v) => v,
            Err(e) => {
                return Err(e);
            },
        };
        match self.consume_token(TokenType::CloseParen, "Expected ')' after variant data") {
            Ok(v) => v,
            Err(e) => {
                return Err(e);
            },
        };
        Ok(Some(fields))
    }

    /// The payload fields of a variant.
    pub(crate) fn parse_enum_variant_fields(&mut self) -> (r: ParserResult<Vec<EnumVariantField>>)
        requires
            old(self).wf(),
        ensures
            went(*old(self), *final(self)),
            step(final(self).st(), r, |v: Vec<EnumVariantField>| enum_variant_fields_of(v@)) == variant_fields_from(old(self).tokens@, old(self).st(), seq![]),
    {
        let mut fields: Vec<EnumVariantField> = Vec::new();
        let ghost ts = self.tokens@;
        loop
            invariant
                went(*old(self), *self),
                ts == self.tokens@,
                variant_fields_from(ts, old(self).st(), seq![]) == variant_fields_from(
                    ts,
                    self.st(),
                    enum_variant_fields_of(fields@),
                ),
            decreases ts.len() - self.current,
        {
            let type_ = match self.parse_type() {
                Ok(v) => v,
                Err(e) => {
                    return Err(e);
                },
            };
            let name = if self.is_at_end() {
                None
            } else {
                match &self.tokens[self.current].token_type {
                    TokenType::Id(name) => Some(name.clone()),
                    _ => None,
                }
            };
            if name.is_some() {
                self.current += 1;
            }
            let field = EnumVariantField { name, type_ };
            fields.push(field);
            if !self.take(TokenType::Comma) {
                return Ok(fields);
            }
        }
    }

    /// A function.
    pub(crate) fn function_declaration(&mut self, is_common: bool) -> (r: ParserResult<FunctionNode>)
        requires
            old(self).wf(),
        ensures
            went(*old(self), *final(self)),
            r is Ok ==> old(self).current < final(self).current,
            step(final(self).st(), r, |f: FunctionNode| f.tree()) == function_declaration(old(self).tokens@, old(self).st(), is_common),
        decreases old(self).tokens@.len() - old(self).current, 150int,
    {
        proof {
            function_declaration_def(self.tokens@, self.st(), is_common);
        }
        let start_span = match self.consume_token(TokenType::Func, "Expected 'func' keyword") {
            Ok(v) => v,
            Err(e) => {
                return Err(e);
            },
        };
        let name = match self.consume_identifier("Expected function name") {
            Ok(v) => v,
            Err(e) => {
                return Err(e);
            },
        };
        let type_params = match self.parse_type_params_list(Bounds::Function) {
            Ok(v) => v,
            Err(e) => {
                return Err(e);
            },
        };
        match self.consume_token(TokenType::OpenParen, "Expected '(' after function name") {
            Ok(v) => v,
            Err(e) => {
                return Err(e);
            },
        };
        let params = match self.parse_function_params() {
            Ok(v) => v,
            Err(e) => {
                return Err(e);
            },
        };
        match self.consume_token(TokenType::CloseParen, "Expected ')' after parameters") {
            Ok(v) => v,
            Err(e) => {
                return Err(e);
            },
        };
        let where_clause = match self.parse_where_clause() {
            Ok(v) => v,
            Err(e) => {
                return Err(e);
            },
        };
        if where_clause.is_some() {
            self.skip_newlines();
        }
        let return_type = match self.parse_required_return_type() {
            Ok(v) => v,
            Err(e) => {
                return Err(e);
            },
        };
        self.skip_newlines();
        let (body, _) = match self.block() {
            Ok(v) => v,
            Err(e) => {
                return Err(e);
            },
        };
        let end_span = end_of(&body, start_span);
        Ok(
            FunctionNode {
                name,
                type_params,
                params,
                return_type,
                body,
                span: combine(start_span, end_span),
                is_common,
                where_clause,
            },
        )
    }

    /// The return type that every function declares.
    pub(crate) fn parse_required_return_type(&mut self) -> (r: ParserResult<TypeNode>)
        requires
            old(self).wf(),
        ensures
            went(*old(self), *final(self)),
            r is Ok ==> old(self).current < final(self).current,
            step(final(self).st(), r, |t: TypeNode| t.tree()) == required_return_type(old(self).tokens@, old(self).st()),
    {
        if self.take(TokenType::Returns) {
            return self.parse_type();
        }
        let message = cat(
            "Expected 'returns' before return type, found ",
            describe_token(&self.peek().token_type).as_str(),
        );
        Err(
            ParserError::with_help(
                DiagnosticCode::ParseExpectedToken,
                message.as_str(),
                self.peek().span,
                "All functions must declare a return type. Use 'returns void' for functions that return nothing. Example: func foo() returns int { ... }",
            ),
        )
    }

    /// The parameters of a function.
    pub(crate) fn parse_function_params(&mut self) -> (r: ParserResult<Vec<Param>>)
        requires
            old(self).wf(),
        ensures
            went(*old(self), *final(self)),
            step(final(self).st(), r, |v: Vec<Param>| params_of(v@)) == function_params(old(self).tokens@, old(self).st()),
        decreases old(self).tokens@.len() - old(self).current, 140int,
    {
        proof {
            function_params_def(self.tokens@, self.st());
        }
        let mut params: Vec<Param> = Vec::new();
        if self.check(TokenType::CloseParen) {
            return Ok(params);
        }
        let ghost ts = self.tokens@;
        let mut has_default = false;
        loop
            invariant
                went(*old(self), *self),
                ts == self.tokens@,
                function_params(ts, old(self).st()) == function_params_from(
                    ts,
                    self.st(),
                    params_of(params@),
                    has_default,
                ),
            decreases ts.len() - self.current,
        {
            proof {
                function_params_from_def(ts, self.st(), params_of(params@), has_default);
            }
            let param = match self.parse_single_param(has_default) {
                Ok(v) => v,
                Err(e) => {
                    return Err(e);
                },
            };
            if param.default_value.is_some() {
                has_default = true;
            }
            params.push(param);
            if !self.take(TokenType::Comma) {
                return Ok(params);
            }
        }
    }

    /// One parameter of a function.
    pub(crate) fn parse_single_param(&mut self, has_default: bool) -> (r: ParserResult<Param>)
        requires
            old(self).wf(),
        ensures
            went(*old(self), *final(self)),
            r is Ok ==> old(self).current < final(self).current,
            step(final(self).st(), r, |p: Param| p.tree()) == single_param(old(self).tokens@, old(self).st(), has_default),
        decreases old(self).tokens@.len() - old(self).current, 125int,
    {
        proof {
            single_param_def(self.tokens@, self.st(), has_default);
        }
        let type_ = match self.parse_type() {
            Ok(v) => v,
            Err(e) => {
                return Err(e);
            },
        };
        let name = match self.consume_identifier("Expected parameter name") {
            Ok(v) => v,
            Err(e) => {
                return Err(e);
            },
        };
        let default_value = match self.parse_param_default(has_default) {
            Ok(v) => v,
            Err(e) => {
                return Err(e);
            },
        };
        Ok(Param { name, type_, default_value })
    }

    /// The default value of a parameter, where it has one. Once one has, the
    /// others must have one too.
    pub(crate) fn parse_param_default(&mut self, has_default: bool) -> (r: ParserResult<Option<ExpressionNode>>)
        requires
            old(self).wf(),
        ensures
            went(*old(self), *final(self)),
            step(final(self).st(), r, |e: Option<ExpressionNode>| expr_tree(e)) == param_default(old(self).tokens@, old(self).st(), has_default),
        decreases old(self).tokens@.len() - old(self).current, 120int,
    {
        proof {
            param_default_def(self.tokens@, self.st(), has_default);
        }
        if !self.take(TokenType::Eq) {
            if has_default {
                return Err(
                    ParserError::with_help(
                        DiagnosticCode::ParseExpectedToken,
                        "Required parameter cannot follow a parameter with a default value",
                        self.previous().span,
                        "Move all parameters with default values to the end of the parameter list",
                    ),
                );
            }
            return Ok(None);
        }
        let default_expr = match self.parse_expression() {
            Ok(v) => v,
            Err(e) => {
                return Err(e);
            },
        };
        if !is_literal_expression(&default_expr) {
            return Err(
                ParserError::with_help(
                    DiagnosticCode::ParseExpectedToken,
                    "Default parameter values must be literals",
                    default_expr.span,
                    "Only literal values (int, float, string, bool, char) are allowed as default parameter values. Example: func foo(int x = 10) returns void { ... }",
                ),
            );
        }
        Ok(Some(default_expr))
    }

    /// A statement. At the top level it must not be directly followed by
    /// another one.
    pub(crate) fn statement(&mut self) -> (r: ParserResult<AstNode>)
        requires
            old(self).wf(),
        ensures
            went(*old(self), *final(self)),
            r is Ok ==> old(self).current < final(self).current,
            step(final(self).st(), r, |n: AstNode| n.tree()) == statement(old(self).tokens@, old(self).st()),
        decreases old(self).tokens@.len() - old(self).current, 160int,
    {
        proof {
            statement_def(self.tokens@, self.st());
        }
        let node = match self.parse_statement_content() {
            Ok(v) => v,
            Err(e) => {
                return Err(e);
            },
        };
        if !self.is_in_block() && !Self::node_is_control_flow(&node) {
            match self.check_statement_termination() {
                Err(e) => self.record_error(e),
                Ok(_) => {},
            }
        }
        Ok(node)
    }

    /// Whether a statement needs no newline behind it.
    fn node_is_control_flow(node: &AstNode) -> (r: bool)
        ensures
            r == is_control_flow(node.tree()),
    {
        proof {
            reveal(is_control_flow);
        }
        proof {
            ast_node_variant(*node);
        }
        match node {
            AstNode::Statement(s) => {
                assert(*node == AstNode::Statement(*s));
                proof {
                    statement_kind_variant(s.kind);
                }
                match &s.kind {
                StatementKind::If { .. }
                | StatementKind::While { .. }
                | StatementKind::For { .. }
                | StatementKind::Match { .. }
                | StatementKind::Function(_) => true,
                _ => false,
                }
            },
            _ => false,
        }
    }

    /// A statement by its first token.
    pub(crate) fn parse_statement_content(&mut self) -> (r: ParserResult<AstNode>)
        requires
            old(self).wf(),
        ensures
            went(*old(self), *final(self)),
            r is Ok ==> old(self).current < final(self).current,
            step(final(self).st(), r, |n: AstNode| n.tree()) == statement_content(old(self).tokens@, old(self).st()),
        decreases old(self).tokens@.len() - old(self).current, 155int,
    {
        proof {
            statement_content_def(self.tokens@, self.st());
        }
        if self.take(TokenType::If) {
            let d = match self.if_statement() {
                Ok(v) => v,
                Err(e) => {
                    return Err(e);
                },
            };
            return Ok(AstNode::Statement(d));
        }
        if self.take(TokenType::While) {
            let d = match self.while_statement() {
                Ok(v) => v,
                Err(e) => {
                    return Err(e);
                },
            };
            return Ok(AstNode::Statement(d));
        }
        if self.take(TokenType::For) {
            let d = match self.for_statement() {
                Ok(v) => v,
                Err(e) => {
                    return Err(e);
                },
            };
            return Ok(AstNode::Statement(d));
        }
        if self.take(TokenType::Match) {
            let d = match self.match_statement() {
                Ok(v) => v,
                Err(e) => {
                    return Err(e);
                },
            };
            return Ok(AstNode::Statement(d));
        }
        if self.take(TokenType::Break) {
            let d = match self.loop_exit_statement(true) {
                Ok(v) => v,
                Err(e) => {
                    return Err(e);
                },
            };
            return Ok(AstNode::Statement(d));
        }
        if self.take(TokenType::Continue) {
            let d = match self.loop_exit_statement(false) {
                Ok(v) => v,
                Err(e) => {
                    return Err(e);
                },
            };
            return Ok(AstNode::Statement(d));
        }
        if self.take(TokenType::Return) {
            let d = match self.return_statement() {
                Ok(v) => v,
                Err(e) => {
                    return Err(e);
                },
            };
            return Ok(AstNode::Statement(d));
        }
        if self.take(TokenType::Func) {
            let f = match self.function_declaration(false) {
                Ok(v) => v,
                Err(e) => {
                    return Err(e);
                },
            };
            return Ok(AstNode::Function(f));
        }
        if self.looks_like_typed_decl() {
            let d = match self.typed_declaration() {
                Ok(v) => v,
                Err(e) => {
                    return Err(e);
                },
            };
            return Ok(AstNode::Statement(d));
        }
        if self.check(TokenType::OpenBrace) {
            let (body, span) = match self.block() {
                Ok(v) => v,
                Err(e) => {
                    return Err(e);
                },
            };
            return Ok(AstNode::Statement(StatementNode { kind: StatementKind::Block(body), span }));
        }
        let d = match self.expression_statement() {
            Ok(v) => v,
            Err(e) => {
                return Err(e);
            },
        };
        Ok(AstNode::Statement(d))
    }

    /// Whether a type and a name follow, and then an initialiser or the end of
    /// the statement.
    fn looks_like_typed_decl(&self) -> (r: bool)
        requires
            self.wf(),
        ensures
            r == looks_like_declaration(self.tokens@, self.current as int),
    {
        proof {
            reveal(looks_like_declaration);
        }
        match self.skip_type(self.current) {
            Some(j) => {
                if j >= self.tokens.len() || !matches!(self.tokens[j].token_type, TokenType::Id(_)) {
                    return false;
                }
                self.token_is(j + 1, TokenType::Eq) || self.token_is(j + 1, TokenType::NewLine)
                    || self.token_is(j + 1, TokenType::CloseBrace) || self.token_is(
                    j + 1,
                    TokenType::Eof,
                )
            },
            None => false,
        }
    }

    /// The token behind what looks like a type at `i`.
    fn skip_type(&self, i: usize) -> (r: Option<usize>)
        requires
            self.wf(),
            i <= self.tokens@.len(),
        ensures
            match r {
                Some(j) => j <= self.tokens@.len() && type_end(self.tokens@, i as int) == Some(
                    j as int,
                ),
                None => type_end(self.tokens@, i as int) is None,
            },
        decreases self.tokens@.len() - i,
    {
        proof {
            reveal(type_end);
        }
        if i >= self.tokens.len() {
            return None;
        }
        match &self.tokens[i].token_type {
            TokenType::Ref => self.skip_type(i + 1),
            TokenType::OpenParen => {
                match self.skip_parens(i + 1) {
                    Some(q) => {
                        if self.token_is(q, TokenType::Returns) {
                            self.skip_type(q + 1)
                        } else {
                            None
                        }
                    },
                    None => None,
                }
            },
            TokenType::Id(_) => {
                if self.token_is(i + 1, TokenType::Lt) {
                    self.skip_angles(i + 2)
                } else {
                    Some(i + 1)
                }
            },
            _ => None,
        }
    }

    /// The token behind the parentheses that are open at `start`.
    fn skip_parens(&self, start: usize) -> (r: Option<usize>)
        requires
            self.wf(),
            0 < start <= self.tokens@.len(),
        ensures
            match r {
                Some(j) => start < j <= self.tokens@.len() && parens_end(
                    self.tokens@,
                    start as int,
                    1,
                ) == Some(j as int),
                None => parens_end(self.tokens@, start as int, 1) is None,
            },
    {
        proof {
            reveal(parens_end);
        }
        let mut i: usize = start;
        let mut depth: usize = 1;
        while i < self.tokens.len() && depth > 0
            invariant
                self.wf(),
                0 < start <= i <= self.tokens@.len(),
                depth <= i - start + 1,
                depth == 0 ==> start < i,
                parens_end(self.tokens@, start as int, 1) == parens_end(
                    self.tokens@,
                    i as int,
                    depth as int,
                ),
            decreases self.tokens@.len() - i,
        {
            proof {
                reveal(parens_end);
            }
            match &self.tokens[i].token_type {
                TokenType::OpenParen => {
                    depth += 1;
                },
                TokenType::CloseParen => {
                    depth -= 1;
                },
                _ => {},
            }
            i += 1;
        }
        if depth == 0 {
            Some(i)
        } else {
            None
        }
    }

    /// The token behind the type arguments that are open at `start`.
    fn skip_angles(&self, start: usize) -> (r: Option<usize>)
        requires
            self.wf(),
            0 < start <= self.tokens@.len(),
        ensures
            match r {
                Some(j) => j <= self.tokens@.len() && angles_end(self.tokens@, start as int, 1)
                    == Some(j as int),
                None => angles_end(self.tokens@, start as int, 1) is None,
            },
    {
        proof {
            reveal(angles_end);
        }
        let mut i: usize = start;
        let mut depth: usize = 1;
        while i < self.tokens.len() && depth > 0
            invariant
                self.wf(),
                0 < start <= i <= self.tokens@.len(),
                depth <= i - start + 1,
                angles_end(self.tokens@, start as int, 1) == angles_end(
                    self.tokens@,
                    i as int,
                    depth as int,
                ),
            decreases self.tokens@.len() - i,
        {
            proof {
                reveal(angles_end);
            }
            match &self.tokens[i].token_type {
                TokenType::Lt => {
                    depth += 1;
                },
                TokenType::Gt => {
                    depth -= 1;
                },
                _ => {},
            }
            i += 1;
        }
        if depth == 0 {
            Some(i)
        } else {
            None
        }
    }

    /// An `if` statement behind its `if`.
    pub(crate) fn if_statement(&mut self) -> (r: ParserResult<StatementNode>)
        requires
            old(self).wf(),
        ensures
            went(*old(self), *final(self)),
            r is Ok ==> old(self).current < final(self).current,
            step(final(self).st(), r, |s: StatementNode| s.tree()) == if_statement(old(self).tokens@, old(self).st()),
        decreases old(self).tokens@.len() - old(self).current, 150int,
    {
        proof {
            if_statement_def(self.tokens@, self.st());
        }
        let start_span = self.previous().span;
        let cond = match self.parse_expression() {
            Ok(v) => v,
            Err(e) => {
                return Err(e);
            },
        };
        match check_no_postfix_increment_decrement(&cond) {
            Ok(v) => v,
            Err(e) => {
                return Err(e);
            },
        };
        self.skip_newlines();
        let (then_block, _) = match self.block() {
            Ok(v) => v,
            Err(e) => {
                return Err(e);
            },
        };
        self.skip_newlines();
        if !self.take(TokenType::Else) {
            let end_span = end_of(&then_block, start_span);
            return Ok(
                StatementNode { kind: StatementKind::If { cond, then_block, else_block: None },
                    span: combine(start_span, end_span),
                },
            );
        }
        self.skip_newlines();
        if self.take(TokenType::If) {
            let nested = match self.if_statement() {
                Ok(v) => v,
                Err(e) => {
                    return Err(e);
                },
            };
            let end_span = nested.span;
            let mut else_block: Vec<StatementNode> = Vec::new();
            else_block.push(nested);
            return Ok(
                StatementNode { kind: StatementKind::If { cond, then_block, else_block: Some(else_block) },
                    span: combine(start_span, end_span),
                },
            );
        }
        if !self.check(TokenType::OpenBrace) {
            return Err(
                ParserError::new(
                    DiagnosticCode::ParseExpectedToken,
                    "Expected '{' after else",
                    self.peek().span,
                ),
            );
        }
        let (else_block, _) = match self.block() {
            Ok(v) => v,
            Err(e) => {
                return Err(e);
            },
        };
        let end_span = end_of(&else_block, self.previous().span);
        Ok(
            StatementNode { kind: StatementKind::If { cond, then_block, else_block: Some(else_block) },
                span: combine(start_span, end_span),
            },
        )
    }

    /// A `while` loop behind its `while`.
    pub(crate) fn while_statement(&mut self) -> (r: ParserResult<StatementNode>)
        requires
            old(self).wf(),
        ensures
            went(*old(self), *final(self)),
            r is Ok ==> old(self).current < final(self).current,
            step(final(self).st(), r, |s: StatementNode| s.tree()) == while_statement(old(self).tokens@, old(self).st()),
        decreases old(self).tokens@.len() - old(self).current, 150int,
    {
        proof {
            while_statement_def(self.tokens@, self.st());
        }
        let start_span = self.peek().span;
        let cond = match self.parse_expression() {
            Ok(v) => v,
            Err(e) => {
                return Err(e);
            },
        };
        match check_no_postfix_increment_decrement(&cond) {
            Ok(v) => v,
            Err(e) => {
                return Err(e);
            },
        };
        self.skip_newlines();
        self.loop_depth = self.loop_depth.saturating_add(1);
        let (body, _) = match self.block() {
            Ok(v) => v,
            Err(e) => {
                return Err(e);
            },
        };
        self.loop_depth = self.loop_depth.saturating_sub(1);
        let end_span = end_of(&body, start_span);
        Ok(
            StatementNode { kind: StatementKind::While { cond, body },
                span: combine(start_span, end_span),
            },
        )
    }

    /// A `for` loop behind its `for`.
    pub(crate) fn for_statement(&mut self) -> (r: ParserResult<StatementNode>)
        requires
            old(self).wf(),
        ensures
            went(*old(self), *final(self)),
            r is Ok ==> old(self).current < final(self).current,
            step(final(self).st(), r, |s: StatementNode| s.tree()) == for_statement(old(self).tokens@, old(self).st()),
        decreases old(self).tokens@.len() - old(self).current, 150int,
    {
        proof {
            for_statement_def(self.tokens@, self.st());
        }
        let start_span = self.peek().span;
        let var_type = match self.parse_type() {
            Ok(v) => v,
            Err(e) => {
                return Err(e);
            },
        };
        let var = match self.consume_identifier("Expected variable name") {
            Ok(v) => v,
            Err(e) => {
                return Err(e);
            },
        };
        match self.consume_token(TokenType::In, "Expected 'in' after variable") {
            Ok(v) => v,
            Err(e) => {
                return Err(e);
            },
        };
        let iter = match self.parse_expression() {
            Ok(v) => v,
            Err(e) => {
                return Err(e);
            },
        };
        match check_no_postfix_increment_decrement(&iter) {
            Ok(v) => v,
            Err(e) => {
                return Err(e);
            },
        };
        self.skip_newlines();
        self.loop_depth = self.loop_depth.saturating_add(1);
        let node = match self.parse_block_or_statement() {
            Ok(v) => v,
            Err(e) => {
                return Err(e);
            },
        };
        self.loop_depth = self.loop_depth.saturating_sub(1);
        match body_of(node) {
            Some(body) => {
                let end_span = end_of(&body, start_span);
                Ok(
                    StatementNode { kind: StatementKind::For { var, var_type, iter, body },
                        span: combine(start_span, end_span),
                    },
                )
            },
            None => Err(
                ParserError::new(
                    DiagnosticCode::ParseExpectedToken,
                    "Expected statement after for loop",
                    start_span,
                ),
            ),
        }
    }

    /// A block, or a single statement.
    pub(crate) fn parse_block_or_statement(&mut self) -> (r: ParserResult<AstNode>)
        requires
            old(self).wf(),
        ensures
            went(*old(self), *final(self)),
            r is Ok ==> old(self).current < final(self).current,
            step(final(self).st(), r, |n: AstNode| n.tree()) == block_or_statement(old(self).tokens@, old(self).st()),
        decreases old(self).tokens@.len() - old(self).current, 165int,
    {
        proof {
            block_or_statement_def(self.tokens@, self.st());
        }
        if self.check(TokenType::OpenBrace) {
            let (body, span) = match self.block() {
                Ok(v) => v,
                Err(e) => {
                    return Err(e);
                },
            };
            return Ok(AstNode::Statement(StatementNode { kind: StatementKind::Block(body), span }));
        }
        self.statement()
    }

    /// A `match` statement behind its `match`.
    pub(crate) fn match_statement(&mut self) -> (r: ParserResult<StatementNode>)
        requires
            old(self).wf(),
        ensures
            went(*old(self), *final(self)),
            r is Ok ==> old(self).current < final(self).current,
            step(final(self).st(), r, |s: StatementNode| s.tree()) == match_statement(old(self).tokens@, old(self).st()),
        decreases old(self).tokens@.len() - old(self).current, 150int,
    {
        proof {
            match_statement_def(self.tokens@, self.st());
        }
        let start_span = self.peek().span;
        let expr = match self.parse_expression() {
            Ok(v) => v,
            Err(e) => {
                return Err(e);
            },
        };
        match check_no_postfix_increment_decrement(&expr) {
            Ok(v) => v,
            Err(e) => {
                return Err(e);
            },
        };
        match self.consume_token(TokenType::OpenBrace, "Expected '{' after match expression") {
            Ok(v) => v,
            Err(e) => {
                return Err(e);
            },
        };
        self.skip_newlines();
        let arms = match self.parse_match_arms(start_span) {
            Ok(v) => v,
            Err(e) => {
                return Err(e);
            },
        };
        let end_span = match self.consume_token(
            TokenType::CloseBrace,
            "Expected '}' after match arms",
        ) {
            Ok(v) => v,
            Err(e) => {
                return Err(e);
            },
        };
        Ok(
            StatementNode { kind: StatementKind::Match { expr, arms },
                span: combine(start_span, end_span),
            },
        )
    }

    /// The arms of a match.
    pub(crate) fn parse_match_arms(&mut self, start_span: Span) -> (r: ParserResult<Vec<MatchArm>>)
        requires
            old(self).wf(),
        ensures
            went(*old(self), *final(self)),
            step(final(self).st(), r, |v: Vec<MatchArm>| match_arms_of(v@)) == match_arms(old(self).tokens@, old(self).st(), start_span, seq![]),
        decreases old(self).tokens@.len() - old(self).current, 180int,
    {
        proof {
            match_arms_def(self.tokens@, self.st(), start_span, seq![]);
        }
        let mut arms: Vec<MatchArm> = Vec::new();
        let ghost ts = self.tokens@;
        loop
            invariant
                went(*old(self), *self),
                ts == self.tokens@,
                match_arms(ts, old(self).st(), start_span, seq![]) == match_arms(
                    ts,
                    self.st(),
                    start_span,
                    match_arms_of(arms@),
                ),
            decreases ts.len() - self.current,
        {
            proof {
                match_arms_def(ts, self.st(), start_span, match_arms_of(arms@));
            }
            if self.check(TokenType::CloseBrace) || self.is_at_end() {
                return Ok(arms);
            }
            let arm = match self.parse_match_arm(start_span) {
                Ok(v) => v,
                Err(e) => {
                    return Err(e);
                },
            };
            arms.push(arm);
            self.skip_newlines();
            if self.take(TokenType::Comma) {
                self.skip_newlines();
            }
        }
    }

    /// One arm of a match: pattern, optional guard and body.
    #[verifier::rlimit(60)]
    pub(crate) fn parse_match_arm(&mut self, start_span: Span) -> (r: ParserResult<MatchArm>)
        requires
            old(self).wf(),
        ensures
            went(*old(self), *final(self)),
            r is Ok ==> old(self).current < final(self).current,
            step(final(self).st(), r, |a: MatchArm| a.tree()) == match_arm(old(self).tokens@, old(self).st(), start_span),
        decreases old(self).tokens@.len() - old(self).current, 175int,
    {
        proof {
            match_arm_def(self.tokens@, self.st(), start_span);
        }
        let pattern = match self.parse_pattern() {
            Ok(v) => v,
            Err(e) => {
                return Err(e);
            },
        };
        let guard = match self.parse_match_guard() {
            Ok(v) => v,
            Err(e) => {
                return Err(e);
            },
        };
        self.skip_newlines();
        let body = match self.parse_match_arm_body(start_span) {
            Ok(v) => v,
            Err(e) => {
                return Err(e);
            },
        };
        Ok(MatchArm { pattern, guard, body })
    }

    /// The guard of a match arm, where it has one.
    pub(crate) fn parse_match_guard(&mut self) -> (r: ParserResult<Option<ExpressionNode>>)
        requires
            old(self).wf(),
        ensures
            went(*old(self), *final(self)),
            step(final(self).st(), r, |e: Option<ExpressionNode>| expr_tree(e)) == match_guard(old(self).tokens@, old(self).st()),
        decreases old(self).tokens@.len() - old(self).current, 60int,
    {
        proof {
            match_guard_def(self.tokens@, self.st());
        }
        if self.take(TokenType::If) {
            let e = match self.parse_expression() {
                Ok(v) => v,
                Err(e) => {
                    return Err(e);
                },
            };
            Ok(Some(e))
        } else {
            Ok(None)
        }
    }

    /// The body of a match arm.
    pub(crate) fn parse_match_arm_body(&mut self, start_span: Span) -> (r: ParserResult<Vec<StatementNode>>)
        requires
            old(self).wf(),
        ensures
            went(*old(self), *final(self)),
            r is Ok ==> old(self).current < final(self).current,
            step(final(self).st(), r, |v: Vec<StatementNode>| stmts_of(v@)) == match_arm_body(old(self).tokens@, old(self).st(), start_span),
        decreases old(self).tokens@.len() - old(self).current, 170int,
    {
        proof {
            match_arm_body_def(self.tokens@, self.st(), start_span);
        }
        if self.take(TokenType::Colon) {
            self.skip_newlines();
        }
        let node = match self.parse_block_or_statement() {
            Ok(v) => v,
            Err(e) => {
                return Err(e);
            },
        };
        match body_of(node) {
            Some(body) => Ok(body),
            None => Err(
                ParserError::new(
                    DiagnosticCode::ParseExpectedToken,
                    "Expected statement for match arm body",
                    start_span,
                ),
            ),
        }
    }

    /// A `return` behind its keyword. At the end of the input, the line or the
    /// block it returns nothing.
    pub(crate) fn return_statement(&mut self) -> (r: ParserResult<StatementNode>)
        requires
            old(self).wf(),
        ensures
            went(*old(self), *final(self)),
            step(final(self).st(), r, |s: StatementNode| s.tree()) == return_statement(old(self).tokens@, old(self).st()),
        decreases old(self).tokens@.len() - old(self).current, 150int,
    {
        proof {
            return_statement_def(self.tokens@, self.st());
        }
        let start_span = self.peek().span;
        if self.is_at_end() || self.check(TokenType::NewLine) || self.check(TokenType::CloseBrace) {
            return Ok(
                StatementNode { kind: StatementKind::Return(None),
                    span: combine(start_span, start_span),
                },
            );
        }
        let expr = match self.parse_expression() {
            Ok(v) => v,
            Err(e) => {
                return Err(e);
            },
        };
        match check_no_postfix_increment_decrement(&expr) {
            Ok(v) => v,
            Err(e) => {
                return Err(e);
            },
        };
        let span = combine(start_span, expr.span);
        Ok(StatementNode { kind: StatementKind::Return(Some(expr)), span })
    }

    /// A `break` or `continue` behind its keyword.
    pub(crate) fn loop_exit_statement(&mut self, is_break: bool) -> (r: ParserResult<StatementNode>)
        requires
            old(self).wf(),
        ensures
            went(*old(self), *final(self)),
            step(final(self).st(), r, |s: StatementNode| s.tree()) == loop_exit(old(self).tokens@, old(self).st(), is_break),
    {
        let start_span = self.peek().span;
        if self.loop_depth == 0 {
            if is_break {
                return Err(
                    ParserError::with_help(
                        DiagnosticCode::ParseControlFlowOutsideLoop,
                        "Cannot use 'break' outside of a loop",
                        start_span,
                        "'break' can only be used inside a 'for' or 'while' loop",
                    ),
                );
            }
            return Err(
                ParserError::with_help(
                    DiagnosticCode::ParseControlFlowOutsideLoop,
                    "Cannot use 'continue' outside of a loop",
                    start_span,
                    "'continue' can only be used inside a 'for' or 'while' loop",
                ),
            );
        }
        let kind = if is_break { StatementKind::Break } else { StatementKind::Continue };
        Ok(StatementNode { kind, span: start_span })
    }

    /// An expression as a statement.
    pub(crate) fn expression_statement(&mut self) -> (r: ParserResult<StatementNode>)
        requires
            old(self).wf(),
        ensures
            went(*old(self), *final(self)),
            r is Ok ==> old(self).current < final(self).current,
            step(final(self).st(), r, |s: StatementNode| s.tree()) == expression_statement(old(self).tokens@, old(self).st()),
        decreases old(self).tokens@.len() - old(self).current, 150int,
    {
        proof {
            expression_statement_def(self.tokens@, self.st());
        }
        let expr = match self.parse_expression() {
            Ok(v) => v,
            Err(e) => {
                return Err(e);
            },
        };
        if !self.is_in_block() && !self.check(TokenType::NewLine) && !self.is_at_end() {
            let next_token = self.tokens[self.current];
            if Self::is_statement_starter(&next_token.token_type) {
                return Err(
                    ParserError::new(
                        DiagnosticCode::ParseExpectedToken,
                        "Expected newline before statement",
                        next_token.span,
                    ),
                );
            }
        }
        self.skip_newlines();
        match validate_postfix_in_statement(&expr) {
            Ok(v) => v,
            Err(e) => {
                return Err(e);
            },
        };
        let span = expr.span;
        Ok(StatementNode { kind: StatementKind::Expression(expr), span })
    }

    /// A block in braces: its statements and its span.
    pub(crate) fn block(&mut self) -> (r: ParserResult<(Vec<StatementNode>, Span)>)
        requires
            old(self).wf(),
        ensures
            went(*old(self), *final(self)),
            r is Ok ==> old(self).current < final(self).current,
            step(final(self).st(), r, |b: (Vec<StatementNode>, Span)| block_tree(b)) == block(old(self).tokens@, old(self).st()),
        decreases old(self).tokens@.len() - old(self).current, 80int,
    {
        proof {
            block_def(self.tokens@, self.st());
        }
        let start_span = match self.consume_token(TokenType::OpenBrace, "Expected '{' before block") {
            Ok(v) => v,
            Err(e) => {
                return Err(e);
            },
        };
        self.skip_newlines();
        if self.take(TokenType::CloseBrace) {
            let empty: Vec<StatementNode> = Vec::new();
            return Ok((empty, combine(start_span, self.previous().span)));
        }
        let nodes = self.parse_block_statements_loop();
        if !self.take(TokenType::CloseBrace) {
            return Err(
                ParserError::new(
                    DiagnosticCode::ParseExpectedToken,
                    "Expected '}' after block",
                    self.peek().span,
                ),
            );
        }
        let statements = collect_statements(nodes);
        Ok((statements, combine(start_span, self.previous().span)))
    }

    /// The declarations and statements of a block, up to its closing brace.
    fn parse_block_statements_loop(&mut self) -> (r: Vec<AstNode>)
        requires
            old(self).wf(),
        ensures
            went(*old(self), *final(self)),
            (final(self).st(), Ok::<Seq<NodeTree>, Fault>(nodes_of(r@))) == block_nodes(
                old(self).tokens@,
                old(self).st(),
                seq![],
            ),
        decreases old(self).tokens@.len() - old(self).current, 200int,
    {
        let mut statements: Vec<AstNode> = Vec::new();
        let ghost ts = self.tokens@;
        loop
            invariant
                went(*old(self), *self),
                ts == self.tokens@,
                block_nodes(ts, old(self).st(), seq![]) == block_nodes(
                    ts,
                    self.st(),
                    nodes_of(statements@),
                ),
            decreases ts.len() - self.current,
        {
            proof {
                block_nodes_def(ts, self.st(), nodes_of(statements@));
            }
            if self.check(TokenType::CloseBrace) || self.is_at_end() {
                return statements;
            }
            self.skip_newlines();
            if self.check(TokenType::CloseBrace) {
                return statements;
            }
            match self.declaration() {
                Some(node) => {
                    statements.push(node);
                    self.skip_newlines();
                },
                None => {
                    // Nothing was parsed. The closing brace stays, so that the
                    // block can finish there.
                    if !self.check(TokenType::CloseBrace) && !self.is_at_end() {
                        self.current += 1;
                    }
                    if self.check(TokenType::CloseBrace) || self.is_at_end() {
                        return statements;
                    }
                },
            }
        }
    }
}

} // verus!
