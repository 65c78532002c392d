use mux_compiler::ast::PrimitiveType;
use mux_compiler::codegen::generator::{Binding, ClassSymbol, CodeGenerator};
use mux_compiler::codegen::steps::{Step, ValueKind};
use mux_compiler::diagnostic::fix::{apply_in_memory, ranges_overlap, RecoveryIntervals};
use mux_compiler::diagnostic::{
    ColorConfig, Diagnostic, DiagnosticCode, DiagnosticEmitter, Files, Label, SourceRange,
    StandardEmitter, Styles, TextEdit, MAX_DIAGNOSTICS,
};
use mux_compiler::driver::sorting::sort_by_keys;
use mux_compiler::lexer::{Lexer, Span, TokenType};
use mux_compiler::lines::split_lines;
use mux_compiler::semantics::Type;
use mux_compiler::source::Source;
use mux_compiler::text::{decimal_string, utf8_len};

fn kinds(text: &str) -> Vec<TokenType> {
    let mut source = Source::from_test_str(text);
    let tokens = Lexer::new(&mut source).lex_all().unwrap();
    tokens.into_iter().map(|token| token.token_type).collect()
}

#[test]
fn decimal_notations_differ() {
    assert_eq!(decimal_string(0), "0");
    assert_eq!(decimal_string(1_203), "1203");
    assert_eq!(decimal_string(usize::MAX), usize::MAX.to_string());
}

#[test]
fn lines_make_up_their_text() {
    for text in ["", "a", "a\n", "a\r\nb", "\n\n", "x\ny\n"] {
        let mut back = String::new();
        for (line, newline) in split_lines(text) {
            back.push_str(&line);
            if newline {
                back.push('\n');
            }
        }
        assert_eq!(back, text);
    }
}

#[test]
fn texts_take_the_bytes_of_their_encoding() {
    for text in ["", "abc", "\u{e9}", "\u{3053}\u{1f600}"] {
        let bytes: usize = text.chars().map(utf8_len).sum();
        assert_eq!(bytes, text.len());
    }
}

#[test]
fn newlines_inside_brackets_are_no_tokens() {
    assert!(!kinds("f(a,\n\n b)").contains(&TokenType::NewLine));
    assert!(kinds("a\nb").contains(&TokenType::NewLine));
    // A block inside of brackets has newlines of its own, and the brackets go
    // on behind it.
    let inner = kinds("f({\nx\n},\ny)");
    assert_eq!(inner.iter().filter(|k| **k == TokenType::NewLine).count(), 2);
}

fn integer() -> Type {
    Type::Primitive(PrimitiveType::Int)
}

fn named(name: &str, args: Vec<Type>) -> Type {
    Type::Named(name.to_string(), args)
}

#[test]
fn types_have_names_of_their_own() {
    let g = CodeGenerator::new();
    let types = || {
        vec![
            integer(),
            Type::Void,
            Type::List(Box::new(integer())),
            Type::SetOf(Box::new(integer())),
            Type::List(Box::new(Type::List(Box::new(integer())))),
            Type::MapOf(Box::new(integer()), Box::new(integer())),
            Type::Optional(Box::new(integer())),
            named("Box", vec![integer()]),
            named("Box", Vec::new()),
            named("list_int", Vec::new()),
            named("Box_int", Vec::new()),
            Type::Variable("Box".to_string()),
            Type::Generic("Box".to_string()),
            Type::Module("Box".to_string()),
            Type::Primitive(PrimitiveType::Void),
            Type::Tuple(Box::new(integer()), Box::new(integer())),
            Type::Function { params: vec![integer()], ret: Box::new(integer()), default_count: 0 },
            Type::Function { params: vec![integer()], ret: Box::new(integer()), default_count: 1 },
            Type::Instantiated("Box".to_string(), vec![integer()]),
        ]
    };
    let names: Vec<String> = types().iter().map(|t| g.type_to_string(t)).collect();
    for i in 0..names.len() {
        for j in 0..i {
            assert_ne!(names[i], names[j]);
        }
    }
}

#[test]
fn closed_types_are_left_alone() {
    let mut g = CodeGenerator::new();
    let map = vec![Binding { name: "T".to_string(), type_: integer() }];
    let closed = || Type::MapOf(Box::new(integer()), Box::new(named("Box", vec![integer()])));
    assert_eq!(g.substitute_type_with_map(&closed(), &map), closed());
    let node = g.type_to_type_node(&closed());
    assert_eq!(g.type_node_to_type(&node), closed());
    g.class_symbols.push(ClassSymbol {
        name: "Slot".to_string(),
        type_params: vec!["T".to_string()],
        fields: vec![Binding { name: "n".to_string(), type_: integer() }],
    });
    assert_eq!(
        g.class_field_type_for_receiver("Slot", &vec![Type::Void], "n"),
        g.class_field_type("Slot", "n")
    );
}

#[test]
fn overlapping_is_mutual() {
    let ranges = [(0, 0), (0, 2), (1, 3), (2, 2), (3, 5)];
    for a in ranges {
        for b in ranges {
            let (a, b) = (SourceRange::new(a.0, a.1), SourceRange::new(b.0, b.1));
            assert_eq!(ranges_overlap(a, b), ranges_overlap(b, a));
        }
    }
}

#[test]
fn the_order_of_edits_does_not_matter() {
    let mut files = Files::new();
    let id = files.add("a.mux", "one two three".to_string());
    let edit = |start, end, text: &str| {
        TextEdit::machine_applicable(
            id,
            SourceRange::new(start, end),
            text,
            DiagnosticCode::RedundantConstruct,
        )
    };
    let forwards = [edit(0, 3, "1"), edit(4, 7, "2"), edit(8, 13, "3")];
    let backwards = [edit(8, 13, "3"), edit(4, 7, "2"), edit(0, 3, "1")];
    let none = RecoveryIntervals::new();
    let a = apply_in_memory(&files, &forwards, &none).unwrap();
    let b = apply_in_memory(&files, &backwards, &none).unwrap();
    assert_eq!(a.files.get(&id).unwrap(), "1 2 3");
    assert_eq!(a.files.get(&id), b.files.get(&id));
}

fn unused(row: usize, files: &Files) -> Diagnostic {
    Diagnostic::new(DiagnosticCode::UnusedBinding)
        .with_message("unused")
        .with_label(Label::primary(Span::new(row, 1), ""))
        .with_file_id(files.id_for_path("a.mux").unwrap())
}

#[test]
fn batches_do_not_depend_on_the_order_found() {
    let mut files = Files::new();
    files.add("a.mux", "x\ny\nz\n".to_string());
    let emitter = StandardEmitter::new(ColorConfig::Auto);
    let a = vec![unused(1, &files), unused(2, &files), unused(3, &files)];
    let b = vec![unused(3, &files), unused(1, &files), unused(2, &files)];
    assert_eq!(emitter.emit_batch(&a, &files), emitter.emit_batch(&b, &files));
}

#[test]
fn batches_are_bounded() {
    let mut files = Files::new();
    files.add("a.mux", "x\n".to_string());
    let many: Vec<Diagnostic> = (0..MAX_DIAGNOSTICS + 3).map(|_| unused(1, &files)).collect();
    let text = StandardEmitter::new(ColorConfig::Auto).emit_batch(&many, &files);
    assert_eq!(text.matches("--> a.mux:1:1").count(), MAX_DIAGNOSTICS);
    assert!(text.ends_with(
        ": output truncated; 3 additional diagnostics omitted (maximum is 100)\n"
    ));
}

#[test]
fn codes_rise_and_styles_keep_their_text() {
    let codes: Vec<&str> = DiagnosticCode::all().iter().map(|c| c.as_str()).collect();
    let errors: Vec<&&str> = codes.iter().filter(|c| c.starts_with('E')).collect();
    assert!(errors.windows(2).all(|pair| pair[0] < pair[1]));
    let styled = Styles::new(ColorConfig::Auto).error("text");
    assert!(styled.contains("text"));
    assert!(styled.starts_with('\u{1b}') && styled.ends_with("\u{1b}[0m"));
}

#[test]
fn sorting_is_stable_and_complete() {
    let items = vec!["b1", "a1", "b2", "a2"];
    let keys = vec![vec![2], vec![1], vec![2], vec![1]];
    assert_eq!(sort_by_keys(items, keys), vec!["a1", "a2", "b1", "b2"]);
}

#[test]
fn returns_clean_up_once() {
    let g = CodeGenerator::new();
    let kinds = [ValueKind::Int(1), ValueKind::Int(64), ValueKind::Pointer, ValueKind::Struct];
    let types = [integer(), Type::Primitive(PrimitiveType::Bool), Type::Void];
    for t in &types {
        for kind in kinds {
            for user_enum in [false, true] {
                if let Ok(steps) = g.generate_typed_return(t, user_enum, false, kind) {
                    let count = steps.iter().filter(|s| **s == Step::CleanUpScopes).count();
                    assert_eq!(count, 1);
                    assert!(matches!(steps.last(), Some(Step::Return(_))));
                }
            }
        }
    }
}

#[test]
fn loops_enter_only_blocks_of_their_own() {
    let mut g = CodeGenerator::new();
    let steps = g.generate_list_for_loop("x", integer());
    for step in &steps {
        if let Step::Enter(label) = step {
            assert!(steps.contains(&Step::Append(*label)));
        }
    }
}
