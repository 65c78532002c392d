//! Parsing tokens into the syntax tree.

use mux_compiler::ast::{
    AstNode, ExpressionKind, ExpressionNode, LiteralNode, PrimitiveType, StatementKind,
    StatementNode, TypeKind,
};
use mux_compiler::diagnostic::DiagnosticCode;
use mux_compiler::lexer::{Lexer, Span, Token, TokenType};
use mux_compiler::parser::state::MAX_ERRORS;
use mux_compiler::parser::statements::collect_statements;
use mux_compiler::parser::{Parser, ParserError};
use mux_compiler::source::Source;

/// A source together with the tokens that a parser borrows.
struct TestSource {
    tokens: Vec<Token>,
}

impl TestSource {
    fn new(source: &str) -> Self {
        let mut src = Source::from_test_str(source);
        Self { tokens: collect_tokens(&mut src) }
    }

    fn parser(&self) -> Parser<'_> {
        Parser::new(&self.tokens)
    }

    fn parse(&self) -> Result<Vec<AstNode>, (Vec<AstNode>, Vec<ParserError>)> {
        self.parser().parse()
    }
}

fn collect_tokens(source: &mut Source) -> Vec<Token> {
    let input = source.input.clone();
    println!("Collecting tokens from source:\n{input}");

    let mut lexer = Lexer::new(source);
    let mut tokens = Vec::new();

    loop {
        match lexer.next_token() {
            Ok(token) => {
                if token.token_type == TokenType::Eof {
                    break;
                }
                tokens.push(token);
            }
            Err(e) => {
                panic!("Lexer error: {}", e.to_string());
            }
        }
    }

    tokens
}

#[test]
fn parser_caps_recovery_errors() {
    let source = (0..110).map(|_| "func main( {\n").collect::<String>();
    let parser = create_parser(&source);
    let Err((_, errors)) = parser.parse() else {
        panic!("malformed source unexpectedly parsed");
    };

    assert_eq!(errors.len(), MAX_ERRORS);
    assert_eq!(
        errors.last().map(|error| error.code),
        Some(DiagnosticCode::ParseErrorLimit)
    );
}

#[test]
fn parser_recovery_progress_is_iterative() {
    let source = ")".repeat(10_000);
    let parser = create_parser(&source);
    let Err((_, errors)) = parser.parse() else {
        panic!("malformed source unexpectedly parsed");
    };

    assert_eq!(errors.len(), MAX_ERRORS);
    assert_eq!(
        errors.last().map(|error| error.code),
        Some(DiagnosticCode::ParseErrorLimit)
    );
}

#[test]
fn module_path_fixture_preserves_relative_and_absolute_prefixes() {
    for (source, expected_path) in [
        ("import ./module\n", "./module"),
        ("import ../module\n", "../module"),
        ("import /module\n", "/module"),
    ] {
        let parser = create_parser(source);
        let nodes = parser.parse().expect("module path fixture should parse");
        let AstNode::Statement(statement) = &nodes[0] else {
            panic!("module path fixture should produce an import statement");
        };
        let StatementKind::Import { path, .. } = &statement.kind else {
            panic!("module path fixture should produce an import");
        };
        assert_eq!(path, expected_path, "source: {source}");
    }
}

#[test]
fn recovery_records_tokens_skipped_between_errors() {
    let parser = create_parser("auto x = 1 ) auto y = 2\n");
    let mut inner = parser.parser();
    inner.current = inner
        .tokens
        .iter()
        .position(|token| token.token_type == TokenType::CloseParen)
        .expect("test source should contain a closing parenthesis")
        .saturating_sub(1);
    inner.synchronize();
    assert!(
        !inner.recovery_spans().is_empty(),
        "parser recovery must expose discarded source intervals"
    );
}

fn create_parser(source: &str) -> TestSource {
    TestSource::new(source)
}

fn parse_expr(source: &str) -> ExpressionNode {
    let test_parser = create_parser(source);
    test_parser.parser().parse_expression().unwrap()
}

fn parse_stmts(source: &str) -> Vec<StatementNode> {
    let test_parser = create_parser(source);
    match test_parser.parse() {
        Ok(nodes) => collect_statements(nodes),
        Err((nodes, errors)) => {
            println!("Parse errors: {errors:?}");
            collect_statements(nodes)
        }
    }
}

fn assert_auto_decl_literal_statement(
    stmt: &StatementNode,
    expected_row: usize,
    expected_value: &LiteralNode,
) {
    if let StatementKind::AutoDecl(_, _, expr) = &stmt.kind {
        assert_eq!(stmt.span.row_start, expected_row);
        assert!(stmt.span.col_start > 0);
        assert_eq!(expr.span.row_start, expected_row);
        assert!(expr.span.col_start > 0);

        if let ExpressionKind::Literal(lit) = &expr.kind {
            assert_eq!(lit, expected_value);
        } else {
            panic!("Expected literal expression, got {:?}", expr.kind);
        }
    } else {
        panic!("Expected AutoDecl statement, got {:?}", stmt.kind);
    }
}

#[test]
fn test_span_propagation() {
    // using a simpler input since the function parsing is more complex.
    let input = r#"
        auto x = 42
        auto y = "hello"
        "#;

    let stmts = parse_stmts(input);
    assert!(!stmts.is_empty(), "No statements were parsed");
    assert!(stmts.len() >= 2, "Expected at least 2 statements");

    assert_auto_decl_literal_statement(&stmts[0], 2, &LiteralNode::Integer(42));
    assert_auto_decl_literal_statement(&stmts[1], 3, &LiteralNode::String("hello".to_string()));
}

#[test]
fn test_binary_expression_span() {
    let input = "1 + 2 * 3";
    let expr = parse_expr(input);

    // The binary expression should span the entire input
    if let ExpressionKind::Binary {
        left, op: _, right, ..
    } = &expr.kind
    {
        // The entire expression should span from the start of the first token to the end of the last token
        assert_eq!(expr.span.row_start, 1);
        assert_eq!(expr.span.col_start, 1);
        assert_eq!(expr.span.col_end, Some(10)); // 1-based, inclusive of last character

        // The left and right operands should have their own spans
        assert_eq!(left.span.row_start, 1);
        assert_eq!(left.span.col_start, 1);
        assert_eq!(right.span.row_start, 1);
        assert!(right.span.col_start > left.span.col_start);
    } else {
        panic!("Expected binary expression, got {:?}", expr.kind);
    }
}

#[test]
fn test_function_call_span() {
    let input = "add(1, 2 + 3)";
    let expr = parse_expr(input);

    // The function call should span the entire input
    if let ExpressionKind::Call { func, args } = &expr.kind {
        assert_eq!(expr.span.row_start, 1);
        assert_eq!(expr.span.col_start, 1);

        // The function name should have its own span
        assert_eq!(func.span.row_start, 1);
        assert_eq!(func.span.col_start, 1);

        // Arguments should have their own spans
        assert_eq!(args.len(), 2);
        assert_eq!(args[0].span.row_start, 1);
        assert_eq!(args[0].span.col_start, 5);

        // The second argument is a binary expression
        if let ExpressionKind::Binary {
            left, op: _, right, ..
        } = &args[1].kind
        {
            assert_eq!(left.span.row_start, 1);
            assert_eq!(left.span.col_start, 8);
            assert_eq!(right.span.row_start, 1);
            assert_eq!(right.span.col_start, 12);
        } else {
            panic!(
                "Expected binary expression as second argument, got {:?}",
                args[1].kind
            );
        }
    } else {
        panic!("Expected function call expression, got {:?}", expr.kind);
    }
}

#[test]
fn test_newline_termination() {
    let stmts = parse_stmts("auto x = 1\n");
    assert_eq!(stmts.len(), 1);

    let source = "auto x = 1\nauto y = 2\n";
    let test_parser = create_parser(source);
    let result = test_parser.parse();

    match result {
        Ok(nodes) => {
            println!("Successfully parsed {} nodes", nodes.len());
            for (i, node) in nodes.iter().enumerate() {
                println!("Node {i}: {node:?}");
            }
            assert_eq!(nodes.len(), 2);
        }
        Err((nodes, errors)) => {
            println!("Parse failed with nodes: {nodes:?} and errors: {errors:?}");
            panic!("Failed to parse multiple statements with newlines");
        }
    }

    let stmts = parse_stmts("auto x = 1\n\nauto y = 2\n");
    assert_eq!(stmts.len(), 2);
}

#[test]
fn test_missing_newline_error() {
    let source = "auto x = 1 auto y = 2";
    let test_parser = create_parser(source);
    let result = test_parser.parse();

    match result {
        Ok(nodes) => {
            panic!(
                "Expected an error about missing newline, but got successful parse with nodes: {nodes:?}"
            );
        }
        Err((_, errors)) => {
            assert!(!errors.is_empty(), "Expected errors but got none");
            let has_newline_error = errors.iter().any(|e| {
                let msg_lower = e.message.to_lowercase();
                msg_lower.contains("expected newline after statement")
                    || msg_lower.contains("missing newline")
                    || msg_lower.contains("expected newline")
            });

            if !has_newline_error {
                panic!("Expected an error about missing newline, but got: {errors:?}");
            }
        }
    }
}
#[test]
fn test_variable_declaration() {
    let stmts = parse_stmts("auto x = 42\n");
    assert_eq!(stmts.len(), 1);
    match &stmts[0].kind {
        StatementKind::AutoDecl(name, _, expr) => {
            assert_eq!(name, "x");
            assert!(matches!(expr.kind, ExpressionKind::Literal(_)));
        }
        _ => panic!("Expected auto variable declaration"),
    }

    let stmts = parse_stmts("int x = 42\n");
    assert_eq!(stmts.len(), 1);

    let stmts = parse_stmts("const int PI = 3.14159\n");
    assert_eq!(stmts.len(), 1);
}

#[test]
fn test_expressions() {
    let stmts = parse_stmts("1 + 2 * 3\n");
    assert_eq!(stmts.len(), 1);
    assert!(matches!(&stmts[0].kind, StatementKind::Expression { .. }));

    let expr = parse_expr("(1 + 2) * 3");
    assert!(matches!(expr.kind, ExpressionKind::Binary { .. }));
}

#[test]
fn test_block_statements() {
    let block_expr = parse_stmts("{\n  auto x = 1\n  auto y = 2\n}\n");
    assert!(
        !block_expr.is_empty(),
        "Failed to parse block expression with newlines"
    );

    let single_stmt = parse_stmts("auto x = 1\n");
    assert!(
        !single_stmt.is_empty(),
        "Failed to parse single statement with newline"
    );

    let multi_stmt = parse_stmts("auto x = 1\n\nauto y = 2\n");
    assert_eq!(
        multi_stmt.len(),
        2,
        "Expected 2 statements with newline separation"
    );

    let block_with_empty_lines = parse_stmts("{\n  auto x = 1\n  \n  auto y = 2\n}\n");
    assert!(
        !block_with_empty_lines.is_empty(),
        "Failed to parse block with empty lines"
    );
}

#[test]
fn test_control_flow() {
    let stmts = parse_stmts("if x {\n  auto y = 1\n}\n");
    assert!(!stmts.is_empty());
}

#[test]
fn test_function_declaration() {
    let test_parser = create_parser("func add(int a, int b) returns int {\n  a + b\n}\n");
    let result = test_parser.parse();

    match result {
        Ok(nodes) => {
            assert!(!nodes.is_empty());

            if let AstNode::Function(func) = &nodes[0] {
                assert_eq!(func.name, "add");
                assert_eq!(func.params.len(), 2);
                assert_eq!(
                    func.return_type.kind,
                    TypeKind::Primitive(PrimitiveType::Int)
                );
            } else {
                panic!("Expected a function node, got {:?}", nodes[0]);
            }
        }
        Err((nodes, errors)) => {
    if !nodes.is_empty() {
                if let AstNode::Function(func) = &nodes[0] {
                    assert_eq!(func.name, "add");
                    assert_eq!(func.params.len(), 2);
                    assert_eq!(
                        func.return_type.kind,
                        TypeKind::Primitive(PrimitiveType::Int)
                    );
                    return;
                }
            }
            panic!("Failed to parse function: {errors:?}");
        }
    }

    let test_parser = create_parser("fn double(int x) {\n  return x * 2\n}\n");
    let result = test_parser.parse();

    match result {
        Ok(nodes) => {
            assert!(!nodes.is_empty(), "Expected at least one statement");
        }
        Err((nodes, errors)) => {
            if nodes.is_empty() {
                panic!("Failed to parse function: {errors:?}");
            }
        }
    }

    let test_parser =
        create_parser("fn greet(string name, int times = 1) {\n  return 0\n}\n");
    let result = test_parser.parse();

    match result {
        Ok(nodes) => {
            assert!(!nodes.is_empty(), "Expected at least one statement");
        }
        Err((nodes, errors)) => {
            if nodes.is_empty() {
                panic!("Failed to parse function: {errors:?}");
            }
        }
    }
}

#[test]
fn test_error_recovery() {
    let source = r"
            let x = 5
            auto y = 10

            func foo() {
                return 42
            }

            = 99

            let z = 20 30

            auto valid1 = 100

            let result = (5 + 10

            func bar() {
                return
                auto x = 42
            }

            auto valid2 = 200

            struct BadStruct {
                field1: InvalidType
                field2: int
            }

            auto valid3 = 300
        ";

    let parser = create_parser(source);
    let result = parser.parse();

    // We expect an error due to the invalid number format
    if let Err((nodes, errors)) = result {
        assert!(!errors.is_empty(), "Expected at least one error");

            // Check that we have valid nodes despite the errors
            assert!(!nodes.is_empty(), "Expected some valid nodes to be parsed");
        println!("Successfully parsed {} nodes despite errors", nodes.len());

        // Check that we have at least some valid nodes
        assert!(
            nodes.len() >= 2,
            "Expected at least 2 valid nodes to be parsed"
        );

        let mut found_expected_error = false;
        for error in &errors {
            println!("Found error: {} at {:?}", error.message, error.span);

            if error.message.contains("unknown escape sequence")
                || error.message.contains("Expected expression")
            {
                found_expected_error = true;
            }

            assert!(
                !error.message.is_empty(),
                "Expected a non-empty error message"
            );
        }

        assert!(
            found_expected_error,
            "Expected to find an error about invalid syntax"
        );
    } else {
        panic!("Expected parsing to fail with errors");
    }

    // Test recovery in the middle of expressions
    let source = "auto x = 10 + * 5 - / 3\nauto y = 20\n";
    let parser = create_parser(source);
    let result = parser.parse();

    // This should also fail but not panic
    assert!(result.is_err());
}

#[test]
fn cursor_consumes_identifiers_and_preserves_lookahead() {
    let tokens = [
        Token::new(TokenType::Id("value".to_string()), Span::new(1, 1)),
        Token::new(TokenType::NewLine, Span::new(1, 6)),
    ];
    let mut parser = Parser::new(&tokens);

    assert!(!parser.is_at_end());
    assert_eq!(
        parser.peek_ahead(1).map(|token| &token.token_type),
        Some(&TokenType::NewLine)
    );
    assert_eq!(
        parser.consume_identifier("expected name"),
        Ok("value".to_string())
    );
    assert!(parser.matches(&[TokenType::NewLine]));
    assert!(parser.is_at_end());
}

#[test]
fn cursor_bounds_are_safe_at_start_and_end() {
    let tokens = [Token::new(TokenType::Eof, Span::new(1, 1))];
    let mut parser = Parser::new(&tokens);

    assert_eq!(parser.previous().token_type, TokenType::Eof);
    assert_eq!(parser.advance().token_type, TokenType::Eof);
    assert_eq!(parser.consume().token_type, TokenType::Eof);

    let mut empty = Parser::new(&[]);
    assert_eq!(empty.previous().token_type, TokenType::Eof);
    assert_eq!(empty.advance().token_type, TokenType::Eof);
    assert_eq!(empty.consume().token_type, TokenType::Eof);
}

fn parse_type(source: &str) -> Result<TypeKind, String> {
    let mut source = Source::from_test_str(source);
    let tokens = Lexer::new(&mut source)
        .lex_all()
        .map_err(|error| format!("type fixture should lex: {error:?}"))?;
    let mut parser = Parser::new(&tokens);
    parser
        .parse_type()
        .map(|node| node.kind)
        .map_err(|error| format!("type fixture should parse: {error:?}"))
}

#[test]
fn parses_nested_container_types() -> Result<(), String> {
    let kind = parse_type("map<string, list<int>>")?;
    let TypeKind::MapOf(key, value) = kind else {
        return Err("expected map type".to_owned());
    };
    assert!(matches!(key.kind, TypeKind::Primitive(PrimitiveType::Str)));
    let TypeKind::List(element) = value.kind else {
        return Err("expected list value type".to_owned());
    };
    assert!(matches!(
        element.kind,
        TypeKind::Primitive(PrimitiveType::Int)
    ));
    Ok(())
}

#[test]
fn parses_function_reference_types() -> Result<(), String> {
    let kind = parse_type("&func(int, string) returns bool")?;
    let TypeKind::Reference(function) = kind else {
        return Err("expected reference type".to_owned());
    };
    let TypeKind::Function { params, ret } = function.kind else {
        return Err("expected function type".to_owned());
    };
    let first_param = params.first().ok_or("missing first parameter")?;
        let second_param = params.get(1).ok_or("missing second parameter")?;
    assert!(matches!(
        first_param.kind,
        TypeKind::Primitive(PrimitiveType::Int)
    ));
    assert!(matches!(
        second_param.kind,
        TypeKind::Primitive(PrimitiveType::Str)
    ));
    assert!(matches!(
        ret.kind,
        TypeKind::Primitive(PrimitiveType::Bool)
    ));
    Ok(())
}

#[test]
fn sample_programs_parse() {
    let hello = "func main() returns void {\n    print(\"Hello, Mux!\")\n}\n";
    let divide = r#"// Error handling with Result types
func divide(int a, int b) returns result<int, string> {
    if b == 0 {
        return err("division by zero")
    }
    return ok(a / b)
}

// Pattern matching with exhaustive checking
func main() returns void {
    auto result = divide(10, 2)

    match result {
        ok(value) {
            print("Result: " + value.to_string())
        }
        err(error) {
            print("Error: " + error)
        }
    }
}
"#;
    for (program, functions) in [(hello, 1), (divide, 2)] {
        let mut source = Source::from_test_str(program);
        let tokens = Lexer::new(&mut source).lex_all().unwrap();
        let mut parser = Parser::new(&tokens);
        let nodes = parser.parse().unwrap();
        assert_eq!(nodes.len(), functions);
        assert!(nodes.iter().all(|node| matches!(node, AstNode::Function(_))));
    }
}

fn whole(source: &str) -> ExpressionNode {
    let test = TestSource::new(source);
    let mut parser = test.parser();
    let expr = parser.parse_expression().unwrap();
    assert_eq!(parser.current, test.tokens.len(), "source: {source}");
    expr
}

/// The field and the receiver of a call without arguments.
fn method_call(expr: ExpressionNode) -> (String, ExpressionKind) {
    let ExpressionKind::Call { func, args } = expr.kind else {
        panic!("not a call: {expr:?}");
    };
    assert!(args.is_empty());
    let ExpressionKind::FieldAccess { expr, field } = func.kind else {
        panic!("not a field: {func:?}");
    };
    (field, expr.kind)
}

#[test]
fn set_literals_take_postfix_operators() {
    let (field, receiver) = method_call(whole("{1, 2}.size()"));
    assert_eq!(field, "size");
    assert!(matches!(receiver, ExpressionKind::SetLiteral(elements) if elements.len() == 2));
    let (field, receiver) = method_call(whole("{}.size()"));
    assert_eq!(field, "size");
    assert!(matches!(receiver, ExpressionKind::SetLiteral(elements) if elements.is_empty()));
    let (_, receiver) = method_call(whole("{1, 2}\n.size()"));
    assert!(matches!(receiver, ExpressionKind::SetLiteral(_)));
}

#[test]
fn map_literals_take_postfix_operators() {
    let expr = whole("{\"a\": 1}[\"a\"]");
    let ExpressionKind::ListAccess { expr, index } = expr.kind else {
        panic!("not an index");
    };
    assert!(matches!(expr.kind, ExpressionKind::MapLiteral { entries, .. } if entries.len() == 1));
    assert!(matches!(
        index.kind,
        ExpressionKind::Literal(LiteralNode::String(key)) if key == "a"
    ));
    let (_, receiver) = method_call(whole("{:}.size()"));
    assert!(matches!(receiver, ExpressionKind::MapLiteral { entries, .. } if entries.is_empty()));
}

#[test]
fn if_expressions_take_postfix_operators() {
    for source in ["if c { a } else { b }.len()", "if c { a } else { b }\n.len()"] {
        let (field, receiver) = method_call(whole(source));
        assert_eq!(field, "len");
        assert!(matches!(receiver, ExpressionKind::If { .. }));
    }
    let (_, receiver) = method_call(whole("if c { a } else if d { b } else { e }.len()"));
    let ExpressionKind::If { else_expr, .. } = receiver else {
        panic!("not an if-expression");
    };
    assert!(matches!(else_expr.kind, ExpressionKind::If { .. }));
}

#[test]
fn literals_with_postfix_operators_are_values() {
    let nodes = TestSource::new("auto n = {1, 2}.size()\nauto m = {\"a\": 1}[\"a\"]\n")
        .parse()
        .unwrap();
    assert_eq!(nodes.len(), 2);
    let mixed = whole("-{1}.size() + 2");
    let ExpressionKind::Binary { left, .. } = mixed.kind else {
        panic!("not a sum");
    };
    assert!(matches!(left.kind, ExpressionKind::Unary { .. }));
}
