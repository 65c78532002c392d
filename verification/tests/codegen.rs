use mux_compiler::ast::{
    EnumVariantField, ExpressionKind, ExpressionNode, FunctionNode, LiteralNode, MatchArm, Param,
    PatternNode, PrimitiveType, StatementKind, StatementNode, TypeKind, TypeNode, WhereClause,
};
use mux_compiler::codegen::declare::Initial;
use mux_compiler::codegen::enum_matching::{PayloadField, PayloadKind};
use mux_compiler::codegen::generator::{
    Binding, ClassField, ClassFields, ClassSymbol, CodeGenerator, EnumFields, GenericContext,
    Symbol, SymbolKind, VariantFields,
};
use mux_compiler::codegen::layout::Slot;
use mux_compiler::codegen::loops::LoopKind;
use mux_compiler::codegen::patterns::MatchSubject;
use mux_compiler::codegen::statements::Action;
use mux_compiler::codegen::steps::{
    check_prefix, label_name, BlockLabel, CheckSite, Comparison, Part, RawKind, Reg, SlotName, Step,
    Storage, ValueKind,
};
use mux_compiler::codegen::where_clause::{
    bind_class_fields, emit_construction_invariants, emit_field_assignment_invariants,
    emit_where_checks, invariants_for_field, split_method_name, FieldIndex,
    InheritedPreconditions, ObjectFields,
};
use mux_compiler::lexer::{Lexer, Span};
use mux_compiler::parser::Parser;
use mux_compiler::semantics::Type;
use mux_compiler::source::Source;
use mux_compiler::table::find_entry;

fn integer() -> Type {
    Type::Primitive(PrimitiveType::Int)
}

fn string() -> Type {
    Type::Primitive(PrimitiveType::Str)
}

fn list(inner: Type) -> Type {
    Type::List(Box::new(inner))
}

fn bind(name: &str, type_: Type) -> Binding {
    Binding { name: name.to_string(), type_ }
}

fn expr(source: &str) -> ExpressionNode {
    let mut src = Source::from_test_str(source);
    let tokens = Lexer::new(&mut src).lex_all().unwrap();
    Parser::new(&tokens).parse_expression().unwrap()
}

fn name(text: &str) -> ExpressionNode {
    ExpressionNode {
        kind: ExpressionKind::Identifier(text.to_string()),
        span: Span::new(1, 1),
    }
}

fn statement(kind: StatementKind) -> StatementNode {
    StatementNode { kind, span: Span::new(1, 1) }
}

fn type_node(kind: TypeKind) -> TypeNode {
    TypeNode { kind, span: Span::new(1, 1) }
}

fn var(text: &str) -> PatternNode {
    PatternNode::Identifier(text.to_string())
}

fn generic(pairs: Vec<Binding>) -> CodeGenerator {
    let mut g = CodeGenerator::new();
    g.generic_context = Some(GenericContext { type_params: pairs });
    g
}

#[test]
fn type_parameters_are_resolved() {
    let g = generic(vec![bind("T", list(Type::Variable("U".to_string()))), bind("U", integer())]);
    assert_eq!(
        g.resolve_type(&Type::Variable("T".to_string())),
        Ok(list(integer()))
    );
    let loops = generic(vec![
        bind("T", Type::Variable("U".to_string())),
        bind("U", Type::Variable("T".to_string())),
    ]);
    assert!(loops.resolve_type(&Type::Variable("T".to_string())).is_err());
}

#[test]
fn substitution_replaces_variables_only() {
    let g = CodeGenerator::new();
    let map = vec![bind("T", integer())];
    let before = Type::Tuple(
        Box::new(Type::Variable("T".to_string())),
        Box::new(Type::Variable("V".to_string())),
    );
    assert_eq!(
        g.substitute_type_with_map(&before, &map),
        Type::Tuple(Box::new(integer()), Box::new(Type::Variable("V".to_string())))
    );
    assert_eq!(g.substitute_type_with_map(&list(string()), &map), list(string()));
}

#[test]
fn types_have_names_and_syntax() {
    let g = CodeGenerator::new();
    assert_eq!(g.type_to_string(&integer()), "int");
    assert_eq!(g.mangled_enum_name("Box", &vec![integer()]), "Box$int");
    assert_eq!(g.mangled_enum_name("Color", &Vec::new()), "Color");
    assert_eq!(
        g.enum_name_from_type(&Type::Optional(Box::new(integer())), "no"),
        Ok("optional".to_string())
    );
    assert_eq!(g.enum_name_from_type(&integer(), "no"), Err("no".to_string()));
    let node = g.type_to_type_node(&list(integer()));
    assert_eq!(g.type_node_to_type(&node), list(integer()));
}

#[test]
fn scalars_live_in_their_own_slots() {
    let mut g = CodeGenerator::new();
    assert_eq!(g.scalar_slot_type(&integer()), Some(Slot::Int64));
    assert_eq!(g.scalar_slot_type(&string()), None);
    assert_eq!(g.storage_for_binding("x", &integer()), Storage::Int64);
    g.captured_names.push("x".to_string());
    assert_eq!(g.storage_for_binding("x", &integer()), Storage::Pointer);
    assert_eq!(g.scalar_slot_for_binding("x", &integer()), None);
    assert_eq!(g.semantic_type_to_llvm(&string()), Ok(Slot::Pointer));
    assert_eq!(
        g.llvm_type_from_resolved_type(&Type::Void),
        Err("Void type not allowed here".to_string())
    );
    assert!(!g.has_class("Point"));
    g.classes.push(ClassFields { name: "Point".to_string(), fields: Vec::new() });
    assert!(g.has_class("Point"));
    assert_eq!(
        g.llvm_type_from_resolved_type(&Type::Named("Point".to_string(), Vec::new())),
        Ok(Slot::Pointer)
    );
    let node = type_node(TypeKind::Primitive(PrimitiveType::Float));
    assert_eq!(g.llvm_type_from_mux_type(&node), Ok(Slot::Double));
}

#[test]
fn inner_scopes_shadow_and_vanish() {
    let mut g = CodeGenerator::new();
    g.bind("x", integer());
    g.current_function_name = Some("main".to_string());
    let seen = g.in_block_scope(|inner: &mut CodeGenerator| {
        inner.bind("x", string());
        inner.type_map.push("Box$int".to_string());
        Ok(inner.current_function_name.as_deref() == Some("main") && inner.get_local("x") == Some(&Type::Primitive(PrimitiveType::Str)))
    });
    assert_eq!(seen, Ok(true));
    assert_eq!(g.type_map, vec!["Box$int".to_string()]);
    assert_eq!(g.current_function_name.as_deref(), Some("main"));
    assert_eq!(g.get_local("x"), Some(&integer()));
    g.global_variables.push(bind("y", string()));
    assert_eq!(g.get_local("y"), None);
    assert_eq!(g.get_variable("y"), Some(&string()));
}

#[test]
fn ranges_count_and_lists_are_walked() {
    let mut g = CodeGenerator::new();
    assert_eq!(g.generate_for_statement_inner(&expr("range(0, 3)")), LoopKind::Range);
    assert_eq!(g.generate_for_statement_inner(&expr("range(3)")), LoopKind::List);
    assert_eq!(g.generate_for_statement_inner(&name("items")), LoopKind::List);
    assert_eq!(
        g.begin_range_for_loop(),
        vec![
            Step::Evaluate { part: Part::RangeStart, into: Reg::Start },
            Step::Evaluate { part: Part::RangeEnd, into: Reg::End },
        ]
    );
    let steps = g.generate_range_for_loop("i");
    assert_eq!(steps[1], Step::Store { value: Reg::Start, to: Reg::IndexSlot });
    assert_eq!(steps.last(), Some(&Step::Enter(BlockLabel::ForExit(0))));
    assert_eq!(g.get_local("i"), Some(&integer()));
    assert_eq!(g.label_counter, 1);

    let (begin, variable) = g.begin_list_for_loop(Ok(string()), &Ok(string())).unwrap();
    assert_eq!(variable, string());
    assert!(begin.contains(&Step::Call1 {
        function: "mux_string_to_list",
        arg: Reg::LeftText,
        name: "",
        into: Reg::Items,
    }));
    let (plain, variable) =
        g.begin_list_for_loop(Ok(integer()), &Err("?".to_string())).unwrap();
    assert_eq!(plain.len() + 4, begin.len());
    assert_eq!(plain[0], Step::Evaluate { part: Part::Expression, into: Reg::Items });
    g.label_counter = 7;
    let steps = g.generate_list_for_loop("d", variable);
    assert_eq!(steps.last(), Some(&Step::Enter(BlockLabel::ForContinue(7))));
    assert_eq!(g.label_counter, 8);
    assert!(steps.contains(&Step::AllocateAtEntry {
        storage: Storage::Int64,
        name: SlotName::Declared,
        into: Reg::VarSlot,
    }));
    assert_eq!(
        g.begin_list_for_loop(Err("unknown type".to_string()), &Ok(integer())),
        Err("unknown type".to_string())
    );
    assert_eq!(label_name(BlockLabel::ForHeader(2)), "for_header_2");
    assert_eq!(label_name(BlockLabel::MatchNext(4, 1)), "match_next_4_1");
}

#[test]
fn branches_merge_unless_both_sides_return() {
    let mut g = CodeGenerator::new();
    let ret = || vec![statement(StatementKind::Return(None))];
    assert_eq!(
        g.begin_if_statement(),
        vec![Step::Evaluate { part: Part::Condition, into: Reg::Condition }]
    );
    let both = g.generate_if_statement(&ret(), &Some(ret()));
    assert!(!both.contains(&Step::Append(BlockLabel::IfMerge(0))));
    let one = g.generate_if_statement(&ret(), &None);
    assert!(one.contains(&Step::Append(BlockLabel::IfMerge(1))));
    assert_eq!(one.last(), Some(&Step::Enter(BlockLabel::IfMerge(1))));
    assert_eq!(
        one.iter().filter(|s| **s == Step::Jump(BlockLabel::IfMerge(1))).count(),
        1
    );
    assert_eq!(
        g.generate_while_statement().last(),
        Some(&Step::Enter(BlockLabel::WhileExit))
    );
}

fn initial(kind: ValueKind) -> Initial {
    Initial { kind, owned_closure: false, rhs_owned: false }
}

fn owned(kind: ValueKind) -> Initial {
    Initial { kind, owned_closure: true, rhs_owned: true }
}

const EVALUATE: Step = Step::Evaluate { part: Part::Expression, into: Reg::Value };
const CLONE: Step = Step::Clone { value: Reg::Value, into: Reg::Stored };

#[test]
fn declarations_choose_their_slots() {
    let mut g = CodeGenerator::new();
    let first = g.declare_variable("x", integer(), initial(ValueKind::Int(64)), Storage::OfValue, true);
    assert_eq!(first.len(), 3);
    assert_eq!(
        first[2],
        Step::Overwrite { slot: Reg::Slot, storage: Storage::Int64, value: Reg::Value }
    );
    let again = g.declare_variable("x", integer(), initial(ValueKind::Int(64)), Storage::OfValue, true);
    assert_eq!(
        again,
        vec![Step::Overwrite {
            slot: Reg::Existing,
            storage: Storage::OfSlot,
            value: Reg::Value
        }]
    );
    let top = g.declare_variable("s", string(), initial(ValueKind::Pointer), Storage::OfValue, false);
    assert_eq!(top[1], Step::BoxOwned { value: Reg::Value, into: Reg::Stored });
    let function = || Type::Function { params: Vec::new(), ret: Box::new(integer()), default_count: 0 };
    let kept = g.declare_variable("f", function(), owned(ValueKind::Pointer), Storage::OfValue, true);
    assert!(kept.contains(&Step::TrackClosure(Reg::Slot)));
    let borrowed = g.declare_variable("h", function(), initial(ValueKind::Pointer), Storage::OfValue, true);
    assert_eq!(borrowed.len(), 2);
    g.captured_names.push("cell".to_string());
    let cell =
        g.declare_variable("cell", integer(), initial(ValueKind::Int(64)), Storage::OfValue, true);
    assert_eq!(cell[0], Step::AllocateCell { into: Reg::Slot });
}

#[test]
fn borrowed_structs_are_copied() {
    let color = || Type::Named("Color".to_string(), Vec::new());
    let mut g = CodeGenerator::new();
    let borrowed = g.declare_variable("e", color(), initial(ValueKind::Struct), Storage::OfValue, true);
    assert_eq!(
        borrowed[0],
        Step::AllocateAtEntry {
            storage: Storage::OfValue,
            name: SlotName::Declared,
            into: Reg::Slot
        }
    );
    assert_eq!(borrowed[1], CLONE);
    assert_eq!(
        borrowed[2],
        Step::StoreStruct { value: Reg::Stored, to: Reg::Slot, release: true }
    );
    assert_eq!(borrowed[3], Step::TrackEnumPayload(Reg::Slot));
    let moved = g.declare_variable("m", color(), owned(ValueKind::Struct), Storage::OfValue, false);
    assert!(!moved.contains(&CLONE));
    assert_eq!(
        moved[1],
        Step::StoreStruct { value: Reg::Value, to: Reg::Slot, release: false }
    );
    assert_eq!(
        g.declare_variable("e", color(), initial(ValueKind::Struct), Storage::OfValue, true),
        vec![CLONE, Step::StoreStruct { value: Reg::Stored, to: Reg::Existing, release: true }]
    );
    assert_eq!(
        g.declare_variable("e", color(), owned(ValueKind::Struct), Storage::OfValue, true),
        vec![Step::StoreStruct { value: Reg::Value, to: Reg::Existing, release: true }]
    );
    let returned = g.generate_typed_return(&color(), true, false, ValueKind::Struct).unwrap();
    assert_eq!(returned[0], CLONE);
    let handed = g.generate_typed_return(&color(), true, true, ValueKind::Struct).unwrap();
    assert!(!handed.contains(&CLONE));
}

#[test]
fn declarations_evaluate_then_bind() {
    let mut g = generic(vec![bind("T", integer())]);
    let auto = g
        .generate_auto_decl_statement(
            "x",
            Ok(Type::Variable("T".to_string())),
            initial(ValueKind::Int(64)),
            true,
        )
        .unwrap();
    assert_eq!(auto[0], EVALUATE);
    assert_eq!(auto.len(), 4);
    assert_eq!(g.get_local("x"), Some(&integer()));
    let refused = g.generate_auto_decl_statement(
        "y",
        Err("e".to_string()),
        initial(ValueKind::Int(64)),
        true,
    );
    assert_eq!(refused, Err("Failed to get type for y: e".to_string()));
    assert_eq!(g.get_local("y"), None);
    let node = type_node(TypeKind::Primitive(PrimitiveType::Int));
    let refused = g.generate_typed_decl_statement(
        "y",
        &node,
        Err("e".to_string()),
        initial(ValueKind::Int(64)),
        true,
    );
    assert_eq!(refused, Err("Failed to resolve type for y: e".to_string()));
    assert_eq!(g.get_local("y"), None);
    let typed = g
        .generate_typed_decl_statement("y", &node, Ok(integer()), initial(ValueKind::Int(64)), true)
        .unwrap();
    assert_eq!(typed[0], EVALUATE);
    assert_eq!(
        typed[3],
        Step::Overwrite { slot: Reg::Slot, storage: Storage::Int64, value: Reg::Value }
    );
    assert_eq!(g.get_local("y"), Some(&integer()));
    let void = type_node(TypeKind::Primitive(PrimitiveType::Void));
    assert!(g
        .generate_typed_decl_statement("z", &void, Ok(integer()), initial(ValueKind::Pointer), true)
        .unwrap_err()
        .starts_with("Void type"));
}

fn function(name: &str, param: &str) -> FunctionNode {
    FunctionNode {
        name: name.to_string(),
        type_params: Vec::new(),
        params: vec![Param {
            name: param.to_string(),
            type_: type_node(TypeKind::Primitive(PrimitiveType::Int)),
            default_value: None,
        }],
        return_type: type_node(TypeKind::Primitive(PrimitiveType::Bool)),
        body: Vec::new(),
        span: Span::new(1, 1),
        is_common: false,
        where_clause: None,
    }
}

#[test]
fn nested_functions_are_declared_once() {
    let mut g = CodeGenerator::new();
    let func = || function("inner", "n");
    let bool_type = || Ok(Type::Primitive(PrimitiveType::Bool));
    assert_eq!(
        g.generate_nested_function_statement(func(), bool_type(), true).unwrap_err(),
        "Nested function outside of parent function"
    );
    assert!(g.function_nodes.is_empty());
    g.current_function_name = Some("outer".to_string());
    g.current_function_return_type = Some(string());
    g.bind("a", integer());
    assert_eq!(
        g.generate_nested_function_statement(func(), Err("e".to_string()), true).unwrap_err(),
        "e"
    );
    assert!(g.functions.is_empty());
    assert_eq!(find_entry(&g.function_nodes, "outer!inner"), Some(&func()));
    let first = g.generate_nested_function_statement(func(), bool_type(), true).unwrap();
    assert_eq!(first.name, "outer!inner");
    assert_eq!(
        first.steps,
        vec![
            Step::DeclareFunction,
            Step::GenerateFunction,
            Step::RestoreFunction,
            Step::ResumeFunction
        ]
    );
    let signature = first.signature.unwrap();
    assert_eq!(signature.ret, Some(Slot::Bit));
    assert_eq!(signature.params, vec![Slot::Int64]);
    g.current_function_name = Some(first.name);
    g.current_function_return_type = None;
    g.push_scope();
    g.bind("b", integer());
    g.restore_function(first.saved);
    assert_eq!(g.current_function_name.as_deref(), Some("outer"));
    assert_eq!(g.current_function_return_type, Some(string()));
    assert_eq!(g.get_local("a"), Some(&integer()));
    assert_eq!(g.get_local("b"), None);
    let again = g.generate_nested_function_statement(func(), bool_type(), false).unwrap();
    assert_eq!(again.steps, vec![Step::GenerateFunction, Step::RestoreFunction]);
    assert!(again.signature.is_none());
    assert_eq!(g.functions, vec!["outer!inner".to_string()]);
}

#[test]
fn parameters_that_stand_for_themselves_do_not_settle() {
    let variable = |name: &str| Type::Variable(name.to_string());
    let g = generic(vec![
        bind("A", variable("B")),
        bind("B", integer()),
        bind("X", variable("Y")),
        bind("Y", variable("X")),
    ]);
    assert!(g.type_settles(&variable("A")));
    assert!(!g.type_settles(&variable("X")));
    assert!(g.type_settles(&list(variable("X"))));
    let named = |name: &str| type_node(TypeKind::Named(name.to_string(), Vec::new()));
    assert!(g.type_node_settles(&named("A")));
    assert!(!g.type_node_settles(&named("Y")));
    assert_eq!(g.llvm_type_from_mux_type(&named("A")), Ok(Slot::Int64));
    let mut func = function("f", "n");
    assert!(g.function_types_settle(&func));
    func.params[0].type_ = named("X");
    assert!(!g.function_types_settle(&func));
}

#[test]
fn generic_enums_are_made_where_they_are_declared() {
    let mut g = CodeGenerator::new();
    g.enum_variants.push("Box".to_string());
    let int_node = type_node(TypeKind::Primitive(PrimitiveType::Int));
    let node = type_node(TypeKind::Named("Box".to_string(), vec![int_node]));
    let box_of_int = || Ok(Type::Named("Box".to_string(), vec![integer()]));
    let steps = g
        .generate_typed_decl_statement("b", &node, box_of_int(), owned(ValueKind::Struct), true)
        .unwrap();
    assert_eq!(steps[0], Step::Instantiate);
    assert_eq!(steps[1], EVALUATE);
    assert_eq!(
        steps[2],
        Step::AllocateAtEntry {
            storage: Storage::OfDeclared,
            name: SlotName::Declared,
            into: Reg::Slot
        }
    );
    assert!(g.type_map.contains(&"Box$int".to_string()));
    let steps = g.generate_uninit_decl_statement("c", &node, box_of_int(), true).unwrap();
    assert_eq!(steps[1], Step::Zero { into: Reg::Value });
    assert!(steps.contains(&CLONE));
}

#[test]
fn variables_without_a_value_are_zero() {
    let mut g = CodeGenerator::new();
    let node = type_node(TypeKind::Primitive(PrimitiveType::Str));
    let steps = g
        .generate_uninit_decl_statement("s", &node, Ok(string()), true)
        .unwrap();
    assert_eq!(steps[0], Step::Zero { into: Reg::Value });
    assert_eq!(steps.len(), 4);
    assert_eq!(g.get_local("s"), Some(&string()));
    assert_eq!(
        g.generate_uninit_decl_statement("t", &node, Err("e".to_string()), true),
        Err("e".to_string())
    );
}

#[test]
fn constants_reuse_a_slot_of_their_type() {
    let mut g = CodeGenerator::new();
    let reused = g
        .generate_const_decl_statement("C", Ok(integer()), true, Some(Storage::Int64))
        .unwrap();
    assert_eq!(reused.first(), Some(&EVALUATE));
    assert_eq!(
        reused.last(),
        Some(&Step::Store { value: Reg::Stored, to: Reg::Existing })
    );
    assert_eq!(g.get_local("C"), None);
    let other = g
        .generate_const_decl_statement("C", Ok(string()), true, Some(Storage::Int64))
        .unwrap();
    assert_eq!(other.last(), Some(&Step::TrackCounted(Reg::Slot)));
    assert_eq!(g.get_local("C"), Some(&string()));
    assert_eq!(
        g.generate_const_decl_statement("D", Err("e".to_string()), true, None),
        Err("Failed to get type for D: e".to_string())
    );
}

#[test]
fn returns_follow_the_declared_type() {
    let mut g = CodeGenerator::new();
    assert!(g.try_generate_bool_literal_return(&expr("true")).is_none());
    g.current_function_return_type = Some(Type::Primitive(PrimitiveType::Bool));
    assert_eq!(
        g.try_generate_bool_literal_return(&expr("true")),
        Some(vec![Step::CleanUpScopes, Step::ReturnBool(true)])
    );
    assert_eq!(
        g.generate_typed_return(&integer(), false, false, ValueKind::Int(64)),
        Ok(vec![
            Step::Raw { kind: RawKind::Int, value: Reg::Value, into: Reg::Stored },
            Step::CleanUpScopes,
            Step::Return(Reg::Stored),
        ])
    );
    let bool_type = Type::Primitive(PrimitiveType::Bool);
    assert_eq!(
        g.generate_typed_return(&bool_type, false, false, ValueKind::Int(1)),
        Ok(vec![Step::CleanUpScopes, Step::Return(Reg::Value)])
    );
    assert_eq!(
        g.generate_typed_return(&bool_type, false, false, ValueKind::Float),
        Err("Expected bool value or pointer".to_string())
    );
    assert_eq!(
        g.generate_typed_return(&list(integer()), false, false, ValueKind::Int(64)),
        Err("Expected pointer value for list return".to_string())
    );
    assert_eq!(
        g.generate_typed_return(&string(), true, false, ValueKind::Struct).unwrap()[0],
        CLONE
    );
    g.current_function_return_type = None;
    assert_eq!(
        g.generate_return_with_value(false, false, ValueKind::Int(64)).unwrap()[0],
        Step::Box { value: Reg::Value, into: Reg::Stored }
    );
}

#[test]
fn statements_are_told_apart() {
    let g = CodeGenerator::new();
    let stmt = statement(StatementKind::Return(None));
    let plan = g.generate_statement(&stmt, true, false).unwrap();
    assert_eq!((plan.action, plan.releases), (Action::ReturnNothing, false));
    assert_eq!(
        g.generate_statement(&stmt, true, true).unwrap().action,
        Action::Dead
    );
    let branch = statement(StatementKind::If {
        cond: name("c"),
        then_block: Vec::new(),
        else_block: None,
    });
    assert!(g.generate_statement(&branch, true, false).unwrap().scoped);
    assert_eq!(
        g.generate_statement(&branch, false, false),
        Err("If statement not in function".to_string())
    );
    let repeat = statement(StatementKind::While { cond: name("c"), body: Vec::new() });
    assert_eq!(
        g.generate_statement(&repeat, false, false),
        Err("While statement not in function".to_string())
    );
    let walk = statement(StatementKind::For {
        var: "i".to_string(),
        var_type: type_node(TypeKind::Auto),
        iter: expr("range(0, 1)"),
        body: Vec::new(),
    });
    assert_eq!(
        g.generate_statement(&walk, true, false).unwrap().action,
        Action::For(LoopKind::Range)
    );
    assert_eq!(
        g.generate_statement(&walk, false, false),
        Err("For statement not in function".to_string())
    );
    let select = statement(StatementKind::Match { expr: name("c"), arms: Vec::new() });
    assert_eq!(
        g.generate_statement(&select, false, false),
        Err("Match not in function".to_string())
    );
    assert_eq!(
        g.generate_statement(&statement(StatementKind::Break), true, false).unwrap().action,
        Action::Nothing
    );
}

#[test]
fn values_are_compared_by_their_type() {
    let g = CodeGenerator::new();
    let eq = |t: &Type| g.generate_value_equality(Reg::Subject, Reg::Pattern, t, Reg::Condition);
    assert_eq!(eq(&integer()).unwrap().len(), 3);
    let float = eq(&Type::Primitive(PrimitiveType::Float)).unwrap();
    assert_eq!(
        float[2],
        Step::Compare {
            by: Comparison::OrderedEqual,
            left: Reg::LeftRaw,
            right: Reg::RightRaw,
            name: "feq",
            into: Reg::Condition,
        }
    );
    let text = eq(&string()).unwrap();
    assert_eq!(
        text.iter()
            .filter(|s| matches!(s, Step::Perform { function: "mux_free_string", .. }))
            .count(),
        2
    );
    assert!(eq(&list(integer())).is_ok());
    assert_eq!(
        eq(&Type::Void),
        Err("Equality comparison not supported for match type: Void".to_string())
    );
    let named = Type::Named("say \"hi\"".to_string(), vec![integer(), string()]);
    assert_eq!(
        eq(&named),
        Err(
            "Equality comparison not supported for match type: \
             Named(\"say \\\"hi\\\"\", [Primitive(Int), Primitive(Str)])"
                .to_string()
        )
    );
}

#[test]
fn list_patterns_test_and_bind() {
    let mut g = CodeGenerator::new();
    let elements = vec![
        PatternNode::Literal(LiteralNode::Integer(1)),
        var("a"),
        PatternNode::Wildcard,
    ];
    let test = g.generate_list_pattern_check(&list(integer()), &elements, true).unwrap();
    assert_eq!(
        test[2],
        Step::Compare {
            by: Comparison::SignedAtLeast,
            left: Reg::Length,
            right: Reg::Number(3),
            name: "len_ge",
            into: Reg::Condition,
        }
    );
    assert!(matches!(test.last(), Some(Step::And { right: Reg::ElementCondition(0), .. })));
    let exact = g.generate_list_pattern_check(&list(integer()), &Vec::new(), false).unwrap();
    assert_eq!(exact.len(), 3);
    let rest = Some(Box::new(var("rest")));
    let bound = g.bind_list_pattern_variables(&list(integer()), &elements, &rest);
    assert_eq!(bound.len(), 1 + 4 + 4);
    assert_eq!(g.get_local("a"), Some(&integer()));
    assert_eq!(g.get_local("rest"), Some(&list(integer())));
    assert!(g.bind_list_pattern_variables(&Type::EmptyList, &elements, &rest).is_empty());
}

#[test]
fn switch_patterns_test_and_bind() {
    let mut g = CodeGenerator::new();
    g.symbols.push(Symbol {
        name: "LIMIT".to_string(),
        kind: SymbolKind::Constant,
        type_: Some(integer()),
    });
    let Err(missing) = g.evaluate_switch_pattern_condition(&integer(), &var("LIMIT")) else {
        panic!("the constant has no slot");
    };
    assert_eq!(missing, "Constant LIMIT not found");
    g.global_variables.push(bind("LIMIT", integer()));
    let Ok(test) = g.evaluate_switch_pattern_condition(&integer(), &var("LIMIT")) else {
        panic!("the constant is there");
    };
    assert_eq!(test.condition, Reg::Condition);
    assert_eq!(test.steps[0], Step::LoadConstant { into: Reg::Pattern });
    let Ok(test) = g.evaluate_switch_pattern_condition(&integer(), &var("n")) else {
        panic!("a name matches everything");
    };
    assert_eq!(test.condition, Reg::True);
    assert_eq!(g.get_local("n"), Some(&integer()));
    let variant = PatternNode::EnumVariant { name: "some".to_string(), args: Vec::new() };
    let Err(refused) = g.evaluate_switch_pattern_condition(&integer(), &variant) else {
        panic!("no enum is matched");
    };
    assert_eq!(refused, "Enum variant patterns are not valid in non-enum match");
}

#[test]
fn subjects_are_spilled_where_needed() {
    let mut g = CodeGenerator::new();
    assert!(matches!(
        g.prepare_match_expression(&name("x"), Ok(integer())),
        Ok(MatchSubject::Plain)
    ));
    match g.prepare_match_expression(&expr("1 + 2"), Ok(integer())) {
        Ok(MatchSubject::Spilled { name, steps }) => {
            assert_eq!(name, "match_temp_0");
            assert_eq!(steps.len(), 4);
        }
        _ => panic!("expected a slot"),
    }
    assert_eq!(g.get_local("match_temp_0"), Some(&integer()));
    let Err(e) = g.prepare_match_expression(&expr("1 + 2"), Err("why".to_string())) else {
        panic!("there is no type");
    };
    assert_eq!(e, "Type inference failed: why");
    assert_eq!(g.label_counter, 2);
}

fn arm(pattern: PatternNode, body: Vec<StatementNode>) -> MatchArm {
    MatchArm { pattern, guard: None, body }
}

#[test]
fn matches_lay_out_their_arms() {
    let mut g = CodeGenerator::new();
    let arms = vec![
        arm(PatternNode::Wildcard, vec![statement(StatementKind::Return(None))]),
        arm(PatternNode::Wildcard, Vec::new()),
    ];
    let steps = g.generate_switch_match(&arms);
    assert_eq!(steps[0], Step::Append(BlockLabel::MatchEnd(0)));
    assert_eq!(steps.last(), Some(&Step::Enter(BlockLabel::MatchEnd(0))));
    assert!(steps.contains(&Step::Branch {
        condition: Reg::Condition,
        yes: BlockLabel::MatchArm(0, 1),
        no: BlockLabel::MatchEnd(0),
    }));
    let closed = vec![arm(
        PatternNode::Wildcard,
        vec![statement(StatementKind::Return(None))],
    )];
    assert_eq!(
        g.generate_switch_match(&closed).last(),
        Some(&Step::UnreachableIfOpen)
    );
    let guarded = g.emit_match_guard_and_body(0, 0, 2, true);
    assert!(guarded.contains(&Step::Branch {
        condition: Reg::Condition,
        yes: BlockLabel::MatchGuardPass(0),
        no: BlockLabel::MatchNext(0, 0),
    }));
    assert_eq!(guarded.last(), Some(&Step::JumpIfOpen(BlockLabel::MatchEnd(0))));
}

fn with_enum() -> CodeGenerator {
    let mut g = CodeGenerator::new();
    g.enum_variants.push("Shape".to_string());
    g.type_map.push("Shape".to_string());
    g.enum_variant_fields.push(EnumFields {
        name: "Shape".to_string(),
        variants: vec![VariantFields {
            name: "Square".to_string(),
            fields: vec![EnumVariantField {
                name: None,
                type_: type_node(TypeKind::Primitive(PrimitiveType::Int)),
            }],
        }],
    });
    g.bind("s", Type::Named("Shape".to_string(), Vec::new()));
    g
}

#[test]
fn enum_matches_read_the_discriminant() {
    let mut g = with_enum();
    let shape = Type::Named("Shape".to_string(), Vec::new());
    assert!(g.is_enum_match_type(&shape));
    assert_eq!(g.resolve_enum_match_name(&name("s")), Ok("Shape".to_string()));
    let steps = g
        .generate_match_body(&name("s"), &shape, ValueKind::Pointer, &Vec::new())
        .unwrap();
    assert_eq!(
        steps[0],
        Step::Call1 {
            function: "mux_value_unbox_enum",
            arg: Reg::Subject,
            name: "unbox_subject",
            into: Reg::SubjectPointer,
        }
    );
    assert!(steps.contains(&Step::LoadDiscriminant {
        of: Reg::Subject,
        into: Reg::Discriminant
    }));
    g.type_map.clear();
    assert_eq!(
        g.generate_match_body(&name("s"), &shape, ValueKind::Struct, &Vec::new()),
        Err("Enum Shape not found in type map".to_string())
    );
    let Ok(test) = g.enum_pattern_matches(&var("Square"), Ok(3)) else {
        panic!("it is a variant");
    };
    assert_eq!(test.steps, vec![Step::IsVariant { index: 3, into: Reg::Condition }]);
    let Ok(all) = g.enum_pattern_matches(&var("other"), Err("none".to_string())) else {
        panic!("a name matches everything");
    };
    assert_eq!(all.condition, Reg::True);
}

#[test]
fn generic_enums_are_made_where_they_are_matched() {
    let mut g = CodeGenerator::new();
    g.enum_variants.push("Box".to_string());
    let box_of_int = || Type::Named("Box".to_string(), vec![integer()]);
    g.bind("b", box_of_int());
    let steps = g
        .generate_match_body(&name("b"), &box_of_int(), ValueKind::Struct, &Vec::new())
        .unwrap();
    assert_eq!(steps[0], Step::Instantiate);
    assert!(g.type_map.contains(&"Box$int".to_string()));
    let again = g
        .generate_match_body(&name("b"), &box_of_int(), ValueKind::Struct, &Vec::new())
        .unwrap();
    assert_eq!(g.type_map.len(), 1);
    assert!(again.len() <= steps.len());
}

fn payload(kind: PayloadKind, type_: Result<Type, String>) -> PayloadField {
    PayloadField { kind, type_ }
}

#[test]
fn payloads_need_a_type() {
    let mut g = with_enum();
    let shape = Type::Named("Shape".to_string(), Vec::new());
    let square = PatternNode::EnumVariant { name: "Square".to_string(), args: vec![var("side")] };
    assert_eq!(
        g.bind_enum_arm_variables(
            &square,
            "Shape",
            &shape,
            &vec![payload(PayloadKind::Plain, Err("unknown type".to_string()))],
        ),
        Err("unknown type".to_string())
    );
    let fields = g.variant_field_types("Shape", "Square").unwrap();
    assert_eq!(
        g.variant_field_resolved_type("Shape", "Square", fields, 0, &Ok(string())),
        Ok(string())
    );
    assert_eq!(
        g.variant_field_resolved_type("Shape", "Square", fields, 1, &Ok(string())),
        Err(
            "Field index 1 out of bounds for enum variant Shape.Square during type resolution \
             (has 1 fields)"
                .to_string()
        )
    );
}

#[test]
fn payloads_are_bound() {
    let mut g = with_enum();
    let shape = Type::Named("Shape".to_string(), Vec::new());
    let square = |args| PatternNode::EnumVariant { name: "Square".to_string(), args };
    let steps = g
        .bind_enum_arm_variables(
            &square(vec![var("side")]),
            "Shape",
            &shape,
            &vec![payload(PayloadKind::Plain, Ok(integer()))],
        )
        .unwrap();
    assert_eq!(steps.len(), 5);
    assert_eq!(g.get_local("side"), Some(&integer()));
    assert_eq!(
        g.bind_enum_arm_variables(
            &square(vec![var("a"), var("b")]),
            "Shape",
            &shape,
            &vec![payload(PayloadKind::Boxed, Ok(integer()))],
        ),
        Err("Field index 1 out of bounds for enum variant Shape.Square (has 1 fields)".to_string())
    );
    assert_eq!(g.get_local("a"), Some(&integer()));
    assert_eq!(g.get_local("b"), None);
    let optional = Type::Optional(Box::new(string()));
    let some = PatternNode::EnumVariant { name: "some".to_string(), args: vec![var("v")] };
    let steps = g
        .bind_enum_arm_variables(&some, "optional", &optional, &Vec::new())
        .unwrap();
    assert_eq!(
        steps[0],
        Step::Call1 {
            function: "mux_optional_data",
            arg: Reg::SubjectPointer,
            name: "data_call",
            into: Reg::PayloadPointer(0),
        }
    );
    assert_eq!(g.get_local("v"), Some(&string()));
    assert_eq!(
        g.bind_enum_arm_variables(&some, "optional", &integer(), &Vec::new()),
        Err("Type mismatch: expected Optional, got Primitive(Int)".to_string())
    );
    let result = Type::ResultOf(Box::new(integer()), Box::new(string()));
    assert_eq!(
        g.extract_builtin_enum_variant_value("result", "err", &result),
        Ok(string())
    );
    assert_eq!(
        g.variant_field_types("Shape", "Round").unwrap_err(),
        "Variant Round not found in enum Shape"
    );
    assert_eq!(
        g.variant_field_types("Other", "Round").unwrap_err(),
        "No field information found for enum Other"
    );
}

#[test]
fn fields_are_seen_through_their_receiver() {
    let mut g = CodeGenerator::new();
    g.class_symbols.push(ClassSymbol {
        name: "Slot".to_string(),
        type_params: vec!["T".to_string()],
        fields: vec![bind("item", Type::Variable("T".to_string()))],
    });
    g.classes.push(ClassFields {
        name: "Plain".to_string(),
        fields: vec![ClassField {
            name: "n".to_string(),
            type_: type_node(TypeKind::Primitive(PrimitiveType::Int)),
        }],
    });
    let color = || Type::Named("Color".to_string(), Vec::new());
    assert_eq!(
        g.class_field_type_for_receiver("Slot", &vec![color()], "item"),
        Ok(color())
    );
    assert_eq!(g.class_field_type("Plain", "n"), Ok(integer()));
    assert_eq!(
        g.class_field_type("Plain", "m"),
        Err("Field m not found in class Plain".to_string())
    );
    assert_eq!(
        g.class_field_type("None", "m"),
        Err("Class None not found".to_string())
    );
    g.bind("self", Type::Named("Slot".to_string(), vec![color()]));
    let subject = expr("self.item");
    let inferred = Err("not asked".to_string());
    assert_eq!(
        g.resolve_match_expression_type(&subject, &inferred),
        Ok(color())
    );
    assert_eq!(g.resolve_enum_match_name(&subject), Ok("Color".to_string()));
    assert_eq!(
        g.resolve_match_expression_type(&name("x"), &inferred),
        Err("Type inference failed: not asked".to_string())
    );
    assert_eq!(
        g.resolve_enum_match_name(&name("match_temp_9")),
        Err("Temporary variable match_temp_9 not found".to_string())
    );
    assert_eq!(
        g.resolve_enum_constructor_match_name("ok"),
        Ok("result".to_string())
    );
    assert_eq!(
        g.resolve_enum_constructor_match_name("Thing"),
        Err("Constructor Thing not found".to_string())
    );
}

fn check_of(site: CheckSite, check: usize, place: usize) -> Vec<Step> {
    let fail = BlockLabel::CheckFail(site, check);
    let ok = BlockLabel::CheckOk(site, check);
    vec![
        Step::Evaluate { part: Part::Predicate(place), into: Reg::Value },
        Step::Raw { kind: RawKind::Bool, value: Reg::Value, into: Reg::Condition },
        Step::Append(fail),
        Step::Append(ok),
        Step::Branch { condition: Reg::Condition, yes: ok, no: fail },
        Step::Enter(fail),
        Step::Fatal { message: "where constraint violated", predicate: place, site, check },
        Step::Enter(ok),
    ]
}

fn point_of(count: usize) -> Result<ObjectFields, String> {
    let mut g = CodeGenerator::new();
    g.type_map.push("Point".to_string());
    let indices = vec![
        FieldIndex { name: "x".to_string(), index: 1 },
        FieldIndex { name: "y".to_string(), index: 2 },
    ];
    let fields = vec!["y".to_string(), "x".to_string()];
    g.class_object("Point", "Point", Some(indices), Some(count), Some(fields))
}

fn point() -> Result<ObjectFields, String> {
    point_of(3)
}

fn with_point_fields(checks: Vec<Step>) -> Vec<Step> {
    let mut out = vec![
        Step::OpenScope,
        Step::BindField { field: 1, index: 1 },
        Step::BindField { field: 0, index: 2 },
    ];
    out.extend(checks);
    out.push(Step::CloseScope);
    out
}

#[test]
fn constraints_are_checked() {
    let mut expected = check_of(CheckSite::Entry, 0, 0);
    expected.extend(check_of(CheckSite::Entry, 2, 2));
    assert_eq!(emit_where_checks(&vec![false, true, false], CheckSite::Entry), expected);
    assert_eq!(label_name(BlockLabel::CheckFail(CheckSite::Entry, 0)), "where_pre_0_fail");
    assert_eq!(label_name(BlockLabel::CheckOk(CheckSite::Interface(3), 1)), "where_iface_3_1_ok");
    assert_eq!(check_prefix(CheckSite::Construction, 4), "where_new_4");
    assert_eq!(check_prefix(CheckSite::Named("where_set"), 0), "where_set_0");
    assert_eq!(
        split_method_name("A.b.c"),
        Some(("A".to_string(), "b.c".to_string()))
    );
    assert_eq!(split_method_name("free"), None);
    let referenced = vec![vec!["x".to_string()], vec!["y".to_string(), "x".to_string()]];
    assert_eq!(invariants_for_field(&referenced, "y"), vec![1]);
    assert_eq!(invariants_for_field(&referenced, "x"), vec![0, 1]);
    let site = CheckSite::Named("where_set");
    assert_eq!(
        emit_field_assignment_invariants(&point(), &referenced, &vec![true, false], "x", "where_set"),
        Ok(with_point_fields(check_of(site, 1, 1)))
    );
    assert_eq!(
        emit_field_assignment_invariants(&point(), &referenced, &vec![true, false], "y", "where_set"),
        Ok(with_point_fields(check_of(site, 0, 1)))
    );
    assert_eq!(
        emit_field_assignment_invariants(&point(), &referenced, &vec![true, false], "z", "where_set"),
        Ok(Vec::new())
    );
    assert_eq!(
        emit_construction_invariants(&point(), &vec![false]),
        Ok(with_point_fields(check_of(CheckSite::Construction, 0, 0)))
    );
    assert_eq!(emit_construction_invariants(&point(), &Vec::new()), Ok(Vec::new()));
    assert_eq!(
        emit_construction_invariants(&point_of(2), &vec![true]),
        Err("Field y index out of range".to_string())
    );
}

#[test]
fn objects_need_all_tables() {
    let mut g = CodeGenerator::new();
    let error = |g: &CodeGenerator, indices, count, fields| {
        g.class_object("Box$int", "Box", indices, count, fields).unwrap_err()
    };
    assert_eq!(error(&g, None, None, None), "Class Box$int not found in type map");
    g.type_map.push("Box$int".to_string());
    assert_eq!(error(&g, None, None, None), "Class Box$int not found in field map");
    assert_eq!(
        error(&g, Some(Vec::new()), None, None),
        "Class Box$int not found in field types map"
    );
    assert_eq!(
        error(&g, Some(Vec::new()), Some(0), None),
        "Class Box not found in symbol table"
    );
    let missing = Err("Class Box not found in symbol table".to_string());
    assert_eq!(
        emit_construction_invariants(&missing, &vec![false]),
        Err("Class Box not found in symbol table".to_string())
    );
    assert_eq!(emit_construction_invariants(&missing, &Vec::new()), Ok(Vec::new()));
}

#[test]
fn interface_names_stand_for_parameters() {
    let mut g = CodeGenerator::new();
    g.bind("value", integer());
    let inherited = || InheritedPreconditions {
        interface_param_names: vec!["amount".to_string(), "other".to_string()],
        known: vec![false],
    };
    let mut expected = vec![Step::OpenScope, Step::BindParameter(0)];
    expected.extend(check_of(CheckSite::Interface(0), 0, 0));
    expected.push(Step::CloseScope);
    let method = function("A.run", "value");
    assert_eq!(
        g.emit_function_preconditions(&method, &vec![false], &vec![inherited()]),
        expected
    );
    let free = function("run", "value");
    assert_eq!(
        g.emit_function_preconditions(&free, &vec![false], &vec![inherited()]),
        Vec::new()
    );
    let mut constrained = function("A.run", "amount");
    constrained.where_clause = Some(WhereClause {
        predicates: vec![expr("amount > 0")],
        span: Span::new(1, 1),
    });
    let mut expected = check_of(CheckSite::Entry, 0, 0);
    expected.push(Step::OpenScope);
    expected.extend(check_of(CheckSite::Interface(0), 0, 0));
    expected.push(Step::CloseScope);
    assert_eq!(
        g.emit_function_preconditions(&constrained, &vec![false], &vec![inherited()]),
        expected
    );
    assert_eq!(g.get_local("amount"), None);
}

#[test]
fn fields_are_bound_in_the_order_of_the_object() {
    let fields = vec!["z".to_string(), "gone".to_string(), "a".to_string()];
    let index = |name: &str, index| FieldIndex { name: name.to_string(), index };
    let indices = vec![index("a", 0), index("z", 1)];
    assert_eq!(bind_class_fields(&fields, &indices, 2), Ok(vec![(2, 0), (0, 1)]));
    assert_eq!(
        bind_class_fields(&fields, &indices, 1),
        Err("Field z index out of range".to_string())
    );
}
