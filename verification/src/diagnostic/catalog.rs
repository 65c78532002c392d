//! Stable diagnostic codes and their reference metadata.

use crate::diagnostic::report::Level;
use crate::text::same;
use vstd::prelude::*;

verus! {

/// A stable identifier for a compiler diagnostic.
#[derive(Debug, Clone, Copy, PartialEq, Eq, PartialOrd, Ord, Hash, Structural)]
pub enum DiagnosticCode {
    LexUnexpectedCharacter,
    LexUnterminatedString,
    LexUnknownEscape,
    LexUnterminatedComment,
    LexInvalidNumber,
    LexRangeLiteral,
    LexInvalidCharacterLiteral,
    ParseExpectedToken,
    ParseExpectedExpression,
    ParseExpectedType,
    ParseControlFlowOutsideLoop,
    ParseReturnOutsideFunction,
    ParseErrorLimit,
    UndefinedName,
    DuplicateDeclaration,
    TypeMismatch,
    WrongArgumentCount,
    MissingReturn,
    NonExhaustiveMatch,
    CannotAssign,
    UnknownMember,
    InvalidOperation,
    DivisionByZero,
    NestedFunctionCapture,
    InvalidPattern,
    InvalidTypeArguments,
    UninitializedReadError,
    ModuleNotFound,
    ImportFailure,
    InternalCompiler,
    UnusedBinding,
    ShadowedBinding,
    UnreachableCode,
    DeadAssignment,
    UninitializedRead,
    ConstantCondition,
    RedundantConstruct,
}

/// Documentation for one registered diagnostic code.
#[derive(Debug, Clone, Copy, PartialEq, Eq)]
pub struct DiagnosticInfo {
    pub code: DiagnosticCode,
    pub level: Level,
    pub title: &'static str,
    pub trigger: &'static str,
    pub example: &'static str,
    pub explanation: &'static str,
    pub fix: &'static str,
}

/// The published codes, in stable numeric order.
pub open spec fn published() -> Seq<DiagnosticCode> {
    seq![
        DiagnosticCode::LexUnexpectedCharacter,
        DiagnosticCode::LexUnterminatedString,
        DiagnosticCode::LexUnknownEscape,
        DiagnosticCode::LexUnterminatedComment,
        DiagnosticCode::LexInvalidNumber,
        DiagnosticCode::LexRangeLiteral,
        DiagnosticCode::LexInvalidCharacterLiteral,
        DiagnosticCode::ParseExpectedToken,
        DiagnosticCode::ParseExpectedExpression,
        DiagnosticCode::ParseExpectedType,
        DiagnosticCode::ParseControlFlowOutsideLoop,
        DiagnosticCode::ParseReturnOutsideFunction,
        DiagnosticCode::ParseErrorLimit,
        DiagnosticCode::UndefinedName,
        DiagnosticCode::DuplicateDeclaration,
        DiagnosticCode::TypeMismatch,
        DiagnosticCode::WrongArgumentCount,
        DiagnosticCode::MissingReturn,
        DiagnosticCode::NonExhaustiveMatch,
        DiagnosticCode::CannotAssign,
        DiagnosticCode::UnknownMember,
        DiagnosticCode::InvalidOperation,
        DiagnosticCode::InvalidPattern,
        DiagnosticCode::InvalidTypeArguments,
        DiagnosticCode::UninitializedReadError,
        DiagnosticCode::DivisionByZero,
        DiagnosticCode::NestedFunctionCapture,
        DiagnosticCode::ModuleNotFound,
        DiagnosticCode::ImportFailure,
        DiagnosticCode::InternalCompiler,
        DiagnosticCode::UnreachableCode,
        DiagnosticCode::ConstantCondition,
        DiagnosticCode::RedundantConstruct,
    ]
}

/// The codes that are allocated but that no producer emits yet.
pub open spec fn held_back() -> Seq<DiagnosticCode> {
    seq![
        DiagnosticCode::UnusedBinding,
        DiagnosticCode::ShadowedBinding,
        DiagnosticCode::DeadAssignment,
        DiagnosticCode::UninitializedRead,
    ]
}

/// The number behind a code's letter; warnings are counted from ten thousand.
pub open spec fn number(code: DiagnosticCode) -> int {
    match code {
        DiagnosticCode::LexUnexpectedCharacter => 100,
        DiagnosticCode::LexUnterminatedString => 101,
        DiagnosticCode::LexUnknownEscape => 102,
        DiagnosticCode::LexUnterminatedComment => 103,
        DiagnosticCode::LexInvalidNumber => 104,
        DiagnosticCode::LexRangeLiteral => 105,
        DiagnosticCode::LexInvalidCharacterLiteral => 106,
        DiagnosticCode::ParseExpectedToken => 200,
        DiagnosticCode::ParseExpectedExpression => 201,
        DiagnosticCode::ParseExpectedType => 202,
        DiagnosticCode::ParseControlFlowOutsideLoop => 203,
        DiagnosticCode::ParseReturnOutsideFunction => 204,
        DiagnosticCode::ParseErrorLimit => 205,
        DiagnosticCode::UndefinedName => 300,
        DiagnosticCode::DuplicateDeclaration => 301,
        DiagnosticCode::TypeMismatch => 302,
        DiagnosticCode::WrongArgumentCount => 303,
        DiagnosticCode::MissingReturn => 304,
        DiagnosticCode::NonExhaustiveMatch => 305,
        DiagnosticCode::CannotAssign => 306,
        DiagnosticCode::UnknownMember => 307,
        DiagnosticCode::InvalidOperation => 308,
        DiagnosticCode::DivisionByZero => 312,
        DiagnosticCode::NestedFunctionCapture => 313,
        DiagnosticCode::InvalidPattern => 309,
        DiagnosticCode::InvalidTypeArguments => 310,
        DiagnosticCode::UninitializedReadError => 311,
        DiagnosticCode::ModuleNotFound => 400,
        DiagnosticCode::ImportFailure => 401,
        DiagnosticCode::InternalCompiler => 900,
        DiagnosticCode::UnusedBinding => 10300,
        DiagnosticCode::ShadowedBinding => 10301,
        DiagnosticCode::UnreachableCode => 10302,
        DiagnosticCode::DeadAssignment => 10303,
        DiagnosticCode::UninitializedRead => 10304,
        DiagnosticCode::ConstantCondition => 10305,
        DiagnosticCode::RedundantConstruct => 10306,
    }
}

/// The number that a code's text denotes.
pub open spec fn number_in(text: Seq<char>) -> int {
    (if text[0] == 'W' { 10000int } else { 0int }) + (text[1] as int - 48) * 1000 + (text[2] as int
        - 48) * 100 + (text[3] as int - 48) * 10 + (text[4] as int - 48)
}

/// `found` is the published code whose text is `text`, where there is one.
pub open spec fn names(text: Seq<char>, found: Option<DiagnosticCode>) -> bool {
    match found {
        Some(code) => published().contains(code) && code.as_str()@ == text,
        None => forall|code: DiagnosticCode|
            #![trigger code.as_str()]
            published().contains(code) ==> code.as_str()@ != text,
    }
}

impl DiagnosticCode {
    /// The stable text of a code.
    pub open spec fn as_str_spec(self) -> &'static str {
        match self {
            Self::LexUnexpectedCharacter => "E0100",
            Self::LexUnterminatedString => "E0101",
            Self::LexUnknownEscape => "E0102",
            Self::LexUnterminatedComment => "E0103",
            Self::LexInvalidNumber => "E0104",
            Self::LexRangeLiteral => "E0105",
            Self::LexInvalidCharacterLiteral => "E0106",
            Self::ParseExpectedToken => "E0200",
            Self::ParseExpectedExpression => "E0201",
            Self::ParseExpectedType => "E0202",
            Self::ParseControlFlowOutsideLoop => "E0203",
            Self::ParseReturnOutsideFunction => "E0204",
            Self::ParseErrorLimit => "E0205",
            Self::UndefinedName => "E0300",
            Self::DuplicateDeclaration => "E0301",
            Self::TypeMismatch => "E0302",
            Self::WrongArgumentCount => "E0303",
            Self::MissingReturn => "E0304",
            Self::NonExhaustiveMatch => "E0305",
            Self::CannotAssign => "E0306",
            Self::UnknownMember => "E0307",
            Self::InvalidOperation => "E0308",
            Self::DivisionByZero => "E0312",
            Self::NestedFunctionCapture => "E0313",
            Self::InvalidPattern => "E0309",
            Self::InvalidTypeArguments => "E0310",
            Self::UninitializedReadError => "E0311",
            Self::ModuleNotFound => "E0400",
            Self::ImportFailure => "E0401",
            Self::InternalCompiler => "E0900",
            Self::UnusedBinding => "W0300",
            Self::ShadowedBinding => "W0301",
            Self::UnreachableCode => "W0302",
            Self::DeadAssignment => "W0303",
            Self::UninitializedRead => "W0304",
            Self::ConstantCondition => "W0305",
            Self::RedundantConstruct => "W0306",
        }
    }

    /// Whether the code is one of the warnings.
    pub open spec fn is_warning(self) -> bool {
        self == Self::UnusedBinding
            || self == Self::ShadowedBinding
            || self == Self::UnreachableCode
            || self == Self::DeadAssignment
            || self == Self::UninitializedRead
            || self == Self::ConstantCondition
            || self == Self::RedundantConstruct
    }

    /// The severity of a code.
    pub open spec fn level_spec(self) -> Level {
        if self.is_warning() {
            Level::Warning
        } else {
            Level::Error
        }
    }

    /// The reference texts of a code: title, trigger, example, explanation and fix.
    pub open spec fn reference_texts(
        self,
    ) -> (&'static str, &'static str, &'static str, &'static str, &'static str) {
        match self {
            Self::LexUnexpectedCharacter => (
                "unexpected character",
                "The lexer sees a character that is not Mux syntax.",
                "?",
                "Mux source uses a defined syntax alphabet.",
                "Remove it or replace it with valid syntax.",
            ),
            Self::LexUnterminatedString => (
                "unterminated string",
                "A string reaches end of file before its closing quote.",
                "\"hello",
                "A string literal needs a matching closing quote.",
                "Close the string with the matching quote.",
            ),
            Self::LexUnknownEscape => (
                "unknown escape sequence",
                "A string contains an unsupported escape.",
                "\"hi\\z\"",
                "Only documented string escapes are accepted.",
                "Use a supported escape such as \\n or \\t.",
            ),
            Self::LexUnterminatedComment => (
                "unterminated block comment",
                "A block comment reaches end of file without */.",
                "/* note",
                "Block comments must be closed.",
                "Close the comment with */.",
            ),
            Self::LexInvalidNumber => (
                "invalid number literal",
                "A numeric literal contains invalid characters.",
                "12abc",
                "Numeric literals cannot be followed immediately by identifier characters.",
                "Separate the number from the identifier or correct the literal.",
            ),
            Self::LexInvalidCharacterLiteral => (
                "invalid character literal",
                "A character literal is unterminated or contains more than one character.",
                "'ab'",
                "A character literal must contain exactly one character and a closing quote.",
                "Use one character, such as 'a', or close the literal.",
            ),
            Self::LexRangeLiteral => (
                "range literal syntax is not supported",
                "The source uses .. as a range literal.",
                "range(0, 10)",
                "Mux creates numeric ranges with the range function.",
                "Use range(start, end).",
            ),
            Self::ParseExpectedToken => (
                "expected token",
                "Required grammar is missing at the reported token.",
                "func main( {",
                "The parser reports where the grammar first becomes invalid.",
                "Add the token named by the diagnostic.",
            ),
            Self::ParseExpectedExpression => (
                "expected expression",
                "A statement position cannot start with the next token.",
                "if { print(\"hi\") }",
                "Conditions, arguments, and initializers require expressions.",
                "Write an expression at the reported location.",
            ),
            Self::ParseExpectedType => (
                "expected type",
                "A type position is empty or invalid.",
                "func f() returns",
                "Declarations and return signatures must name a type.",
                "Add the intended type.",
            ),
            Self::ParseControlFlowOutsideLoop => (
                "loop control outside a loop",
                "break or continue appears outside a loop.",
                "break",
                "Loop-control statements only have meaning inside for or while.",
                "Move it into a loop or remove it.",
            ),
            Self::ParseReturnOutsideFunction => (
                "return outside a function",
                "return appears outside a function.",
                "return 42",
                "A return transfers control to an enclosing function.",
                "Put the return in a function.",
            ),
            Self::ParseErrorLimit => (
                "too many parse errors",
                "Parser recovery reached its 100-diagnostic limit.",
                "many malformed declarations",
                "Further parser errors are usually cascades from the first errors.",
                "Fix the earliest reported syntax errors and compile again.",
            ),
            Self::UndefinedName => (
                "undefined name",
                "Code refers to a name that is not in scope.",
                "print(missing)",
                "Mux resolves names statically before code generation.",
                "Declare, import, or correctly spell the name.",
            ),
            Self::DuplicateDeclaration => (
                "duplicate declaration",
                "A scope contains two declarations with the same name.",
                "auto x = 1\\nauto x = 2",
                "A declaration must have one unambiguous binding.",
                "Rename one declaration or assign to the existing binding.",
            ),
            Self::TypeMismatch => (
                "type mismatch",
                "An expression does not have the required type.",
                "int n = \"hello\"",
                "Mux does not insert implicit conversions between unrelated types.",
                "Change the expression or declare the matching type.",
            ),
            Self::WrongArgumentCount => (
                "wrong number of arguments",
                "A call supplies the wrong number of arguments.",
                "add(1)",
                "Calls must satisfy the complete function signature.",
                "Pass the missing arguments or remove extras.",
            ),
            Self::MissingReturn => (
                "missing return",
                "A non-void function can finish without returning a value.",
                "func f() returns int { if true { return 1 } }",
                "Every reachable path must produce the declared type.",
                "Return a value on every path or change the return type.",
            ),
            Self::NonExhaustiveMatch => (
                "non-exhaustive match",
                "A match does not handle every possible value.",
                "match x { 1 { print(\"one\") } }",
                "The compiler must know what happens for every input.",
                "Add the missing cases or a final _ arm.",
            ),
            Self::CannotAssign => (
                "invalid assignment",
                "An assignment targets a constant or non-assignable value.",
                "const x = 1\\nx = 2",
                "Constants and computed values cannot be changed.",
                "Use a mutable declaration or the intended target.",
            ),
            Self::UnknownMember => (
                "unknown member",
                "A field or method is not defined for the receiver type.",
                "value.missing()",
                "Member lookup uses the receiver's declared type.",
                "Correct the member name or use a supported API.",
            ),
            Self::InvalidOperation => (
                "invalid operation",
                "An operator is not defined for the operand types.",
                "true + false",
                "Operators have explicit type rules and do not coerce operands.",
                "Use compatible operands or a supported operation.",
            ),
            Self::DivisionByZero => (
                "division by zero",
                "A division or modulo operation has a divisor provably equal to zero.",
                "10 / 0",
                "The operation would panic on every execution.",
                "Use a non-zero divisor or handle the zero case before dividing.",
            ),
            Self::NestedFunctionCapture => (
                "nested function captures a local",
                "A named nested function refers to a local binding from its enclosing function.",
                "func outer() returns void { int value = 1\nfunc inner() returns void { print(value) } }",
                "Named nested functions do not carry a captured environment.",
                "Pass the value as a parameter or use a capturing lambda.",
            ),
            Self::InvalidPattern => (
                "invalid pattern",
                "A match pattern does not fit its matched value.",
                "match value { Unknown(x) { } }",
                "Patterns must fit the matched type.",
                "Use a pattern supported by that type.",
            ),
            Self::InvalidTypeArguments => (
                "invalid type arguments",
                "A generic type has the wrong arguments.",
                "list<int, string>",
                "Generic declarations define their accepted argument count.",
                "Pass the declared type arguments.",
            ),
            Self::UninitializedReadError => (
                "read before assignment",
                "A variable is read before it has been assigned on every path.",
                "int value\nprint(value)",
                "Mux does not allow a possibly uninitialized value to reach code generation.",
                "Initialize it or assign it on every path before reading it.",
            ),
            Self::ModuleNotFound => (
                "module not found",
                "An import path does not resolve to a Mux module.",
                "import missing",
                "Imports resolve from the project and embedded standard library.",
                "Correct the path or add the module.",
            ),
            Self::ImportFailure => (
                "module import failed",
                "An imported module could not be read or parsed.",
                "import broken",
                "Dependent analysis cannot proceed until the imported module is valid.",
                "Fix the reported problem in that module.",
            ),
            Self::InternalCompiler => (
                "internal compiler error",
                "Mux reached an impossible state or code-generation failure.",
                "compiler-internal failure",
                "This is a compiler bug, not a source-language error.",
                "Report the complete diagnostic and compiler version.",
            ),
            Self::UnusedBinding => (
                "unused binding",
                "A declared binding is never read.",
                "auto unused = 1",
                "The declaration has no observable use.",
                "Remove it, use it, or write _ intentionally.",
            ),
            Self::ShadowedBinding => (
                "shadowed binding",
                "A declaration hides another binding with the same name.",
                "auto x = 1\\nif true { auto x = 2 }",
                "Shadowing can make a nearby use refer to a different value.",
                "Rename the inner binding if accidental.",
            ),
            Self::UnreachableCode => (
                "unreachable code",
                "Control flow can never reach a statement or branch.",
                "return\\nprint(\"never\")",
                "The analyzer proved that an earlier terminator exits the path.",
                "Remove the code or move it before the terminator.",
            ),
            Self::DeadAssignment => (
                "dead assignment",
                "A value is overwritten before it is read.",
                "x = 1\\nx = 2",
                "The first store has no effect on the result.",
                "Remove the first assignment or use its value.",
            ),
            Self::UninitializedRead => (
                "possibly uninitialized read",
                "A variable is read before assignment on a possible path.",
                "int value\\nprint(value)",
                "The analyzer tracks assignments across control-flow paths.",
                "Initialize it or assign on every path.",
            ),
            Self::ConstantCondition => (
                "constant condition",
                "A condition is provably always true or false.",
                "if 1 == 1 { print(\"yes\") }",
                "Constant folding proved the branch outcome.",
                "Remove the condition or use the intended runtime value.",
            ),
            Self::RedundantConstruct => (
                "redundant construct",
                "A construct can be simplified without changing its result.",
                "value && true",
                "The analyzer proved that a boolean operand has no effect on the result.",
                "Apply the suggested simplification.",
            ),
        }
    }

    /// Every registered code, in stable numeric order.
    pub fn all() -> (r: &'static [Self])
        ensures
            r@ == published(),
    {
        &[
            Self::LexUnexpectedCharacter,
            Self::LexUnterminatedString,
            Self::LexUnknownEscape,
            Self::LexUnterminatedComment,
            Self::LexInvalidNumber,
            Self::LexRangeLiteral,
            Self::LexInvalidCharacterLiteral,
            Self::ParseExpectedToken,
            Self::ParseExpectedExpression,
            Self::ParseExpectedType,
            Self::ParseControlFlowOutsideLoop,
            Self::ParseReturnOutsideFunction,
            Self::ParseErrorLimit,
            Self::UndefinedName,
            Self::DuplicateDeclaration,
            Self::TypeMismatch,
            Self::WrongArgumentCount,
            Self::MissingReturn,
            Self::NonExhaustiveMatch,
            Self::CannotAssign,
            Self::UnknownMember,
            Self::InvalidOperation,
            Self::InvalidPattern,
            Self::InvalidTypeArguments,
            Self::UninitializedReadError,
            Self::DivisionByZero,
            Self::NestedFunctionCapture,
            Self::ModuleNotFound,
            Self::ImportFailure,
            Self::InternalCompiler,
            Self::UnreachableCode,
            Self::ConstantCondition,
            Self::RedundantConstruct,
        ]
    }

    /// Allocated codes whose producers are not part of the diagnostics that
    /// the compiler emits. They stay out of `all`, so that `explain` promises
    /// nothing that cannot come.
    pub fn reserved() -> (r: &'static [Self])
        ensures
            r@ == held_back(),
    {
        &[
            Self::UnusedBinding,
            Self::ShadowedBinding,
            Self::DeadAssignment,
            Self::UninitializedRead,
        ]
    }

    #[verifier::when_used_as_spec(as_str_spec)]
    pub fn as_str(self) -> (r: &'static str)
        ensures
            r == self.as_str_spec(),
    {
        match self {
            Self::LexUnexpectedCharacter => "E0100",
            Self::LexUnterminatedString => "E0101",
            Self::LexUnknownEscape => "E0102",
            Self::LexUnterminatedComment => "E0103",
            Self::LexInvalidNumber => "E0104",
            Self::LexRangeLiteral => "E0105",
            Self::LexInvalidCharacterLiteral => "E0106",
            Self::ParseExpectedToken => "E0200",
            Self::ParseExpectedExpression => "E0201",
            Self::ParseExpectedType => "E0202",
            Self::ParseControlFlowOutsideLoop => "E0203",
            Self::ParseReturnOutsideFunction => "E0204",
            Self::ParseErrorLimit => "E0205",
            Self::UndefinedName => "E0300",
            Self::DuplicateDeclaration => "E0301",
            Self::TypeMismatch => "E0302",
            Self::WrongArgumentCount => "E0303",
            Self::MissingReturn => "E0304",
            Self::NonExhaustiveMatch => "E0305",
            Self::CannotAssign => "E0306",
            Self::UnknownMember => "E0307",
            Self::InvalidOperation => "E0308",
            Self::DivisionByZero => "E0312",
            Self::NestedFunctionCapture => "E0313",
            Self::InvalidPattern => "E0309",
            Self::InvalidTypeArguments => "E0310",
            Self::UninitializedReadError => "E0311",
            Self::ModuleNotFound => "E0400",
            Self::ImportFailure => "E0401",
            Self::InternalCompiler => "E0900",
            Self::UnusedBinding => "W0300",
            Self::ShadowedBinding => "W0301",
            Self::UnreachableCode => "W0302",
            Self::DeadAssignment => "W0303",
            Self::UninitializedRead => "W0304",
            Self::ConstantCondition => "W0305",
            Self::RedundantConstruct => "W0306",
        }
    }

    #[verifier::when_used_as_spec(level_spec)]
    pub fn level(self) -> (r: Level)
        ensures
            r == self.level_spec(),
    {
        match self {
            Self::UnusedBinding
            | Self::ShadowedBinding
            | Self::UnreachableCode
            | Self::DeadAssignment
            | Self::UninitializedRead
            | Self::ConstantCondition
            | Self::RedundantConstruct => Level::Warning,
            _ => Level::Error,
        }
    }

    /// The user-facing metadata of the code.
    pub fn info(self) -> (r: DiagnosticInfo)
        ensures
            r.code == self,
            r.level == self.level_spec(),
            (r.title, r.trigger, r.example, r.explanation, r.fix) == self.reference_texts(),
    {
        let (title, trigger, example, explanation, fix) = match self {
            Self::LexUnexpectedCharacter => (
                "unexpected character",
                "The lexer sees a character that is not Mux syntax.",
                "?",
                "Mux source uses a defined syntax alphabet.",
                "Remove it or replace it with valid syntax.",
            ),
            Self::LexUnterminatedString => (
                "unterminated string",
                "A string reaches end of file before its closing quote.",
                "\"hello",
                "A string literal needs a matching closing quote.",
                "Close the string with the matching quote.",
            ),
            Self::LexUnknownEscape => (
                "unknown escape sequence",
                "A string contains an unsupported escape.",
                "\"hi\\z\"",
                "Only documented string escapes are accepted.",
                "Use a supported escape such as \\n or \\t.",
            ),
            Self::LexUnterminatedComment => (
                "unterminated block comment",
                "A block comment reaches end of file without */.",
                "/* note",
                "Block comments must be closed.",
                "Close the comment with */.",
            ),
            Self::LexInvalidNumber => (
                "invalid number literal",
                "A numeric literal contains invalid characters.",
                "12abc",
                "Numeric literals cannot be followed immediately by identifier characters.",
                "Separate the number from the identifier or correct the literal.",
            ),
            Self::LexInvalidCharacterLiteral => (
                "invalid character literal",
                "A character literal is unterminated or contains more than one character.",
                "'ab'",
                "A character literal must contain exactly one character and a closing quote.",
                "Use one character, such as 'a', or close the literal.",
            ),
            Self::LexRangeLiteral => (
                "range literal syntax is not supported",
                "The source uses .. as a range literal.",
                "range(0, 10)",
                "Mux creates numeric ranges with the range function.",
                "Use range(start, end).",
            ),
            Self::ParseExpectedToken => (
                "expected token",
                "Required grammar is missing at the reported token.",
                "func main( {",
                "The parser reports where the grammar first becomes invalid.",
                "Add the token named by the diagnostic.",
            ),
            Self::ParseExpectedExpression => (
                "expected expression",
                "A statement position cannot start with the next token.",
                "if { print(\"hi\") }",
                "Conditions, arguments, and initializers require expressions.",
                "Write an expression at the reported location.",
            ),
            Self::ParseExpectedType => (
                "expected type",
                "A type position is empty or invalid.",
                "func f() returns",
                "Declarations and return signatures must name a type.",
                "Add the intended type.",
            ),
            Self::ParseControlFlowOutsideLoop => (
                "loop control outside a loop",
                "break or continue appears outside a loop.",
                "break",
                "Loop-control statements only have meaning inside for or while.",
                "Move it into a loop or remove it.",
            ),
            Self::ParseReturnOutsideFunction => (
                "return outside a function",
                "return appears outside a function.",
                "return 42",
                "A return transfers control to an enclosing function.",
                "Put the return in a function.",
            ),
            Self::ParseErrorLimit => (
                "too many parse errors",
                "Parser recovery reached its 100-diagnostic limit.",
                "many malformed declarations",
                "Further parser errors are usually cascades from the first errors.",
                "Fix the earliest reported syntax errors and compile again.",
            ),
            Self::UndefinedName => (
                "undefined name",
                "Code refers to a name that is not in scope.",
                "print(missing)",
                "Mux resolves names statically before code generation.",
                "Declare, import, or correctly spell the name.",
            ),
            Self::DuplicateDeclaration => (
                "duplicate declaration",
                "A scope contains two declarations with the same name.",
                "auto x = 1\\nauto x = 2",
                "A declaration must have one unambiguous binding.",
                "Rename one declaration or assign to the existing binding.",
            ),
            Self::TypeMismatch => (
                "type mismatch",
                "An expression does not have the required type.",
                "int n = \"hello\"",
                "Mux does not insert implicit conversions between unrelated types.",
                "Change the expression or declare the matching type.",
            ),
            Self::WrongArgumentCount => (
                "wrong number of arguments",
                "A call supplies the wrong number of arguments.",
                "add(1)",
                "Calls must satisfy the complete function signature.",
                "Pass the missing arguments or remove extras.",
            ),
            Self::MissingReturn => (
                "missing return",
                "A non-void function can finish without returning a value.",
                "func f() returns int { if true { return 1 } }",
                "Every reachable path must produce the declared type.",
                "Return a value on every path or change the return type.",
            ),
            Self::NonExhaustiveMatch => (
                "non-exhaustive match",
                "A match does not handle every possible value.",
                "match x { 1 { print(\"one\") } }",
                "The compiler must know what happens for every input.",
                "Add the missing cases or a final _ arm.",
            ),
            Self::CannotAssign => (
                "invalid assignment",
                "An assignment targets a constant or non-assignable value.",
                "const x = 1\\nx = 2",
                "Constants and computed values cannot be changed.",
                "Use a mutable declaration or the intended target.",
            ),
            Self::UnknownMember => (
                "unknown member",
                "A field or method is not defined for the receiver type.",
                "value.missing()",
                "Member lookup uses the receiver's declared type.",
                "Correct the member name or use a supported API.",
            ),
            Self::InvalidOperation => (
                "invalid operation",
                "An operator is not defined for the operand types.",
                "true + false",
                "Operators have explicit type rules and do not coerce operands.",
                "Use compatible operands or a supported operation.",
            ),
            Self::DivisionByZero => (
                "division by zero",
                "A division or modulo operation has a divisor provably equal to zero.",
                "10 / 0",
                "The operation would panic on every execution.",
                "Use a non-zero divisor or handle the zero case before dividing.",
            ),
            Self::NestedFunctionCapture => (
                "nested function captures a local",
                "A named nested function refers to a local binding from its enclosing function.",
                "func outer() returns void { int value = 1\nfunc inner() returns void { print(value) } }",
                "Named nested functions do not carry a captured environment.",
                "Pass the value as a parameter or use a capturing lambda.",
            ),
            Self::InvalidPattern => (
                "invalid pattern",
                "A match pattern does not fit its matched value.",
                "match value { Unknown(x) { } }",
                "Patterns must fit the matched type.",
                "Use a pattern supported by that type.",
            ),
            Self::InvalidTypeArguments => (
                "invalid type arguments",
                "A generic type has the wrong arguments.",
                "list<int, string>",
                "Generic declarations define their accepted argument count.",
                "Pass the declared type arguments.",
            ),
            Self::UninitializedReadError => (
                "read before assignment",
                "A variable is read before it has been assigned on every path.",
                "int value\nprint(value)",
                "Mux does not allow a possibly uninitialized value to reach code generation.",
                "Initialize it or assign it on every path before reading it.",
            ),
            Self::ModuleNotFound => (
                "module not found",
                "An import path does not resolve to a Mux module.",
                "import missing",
                "Imports resolve from the project and embedded standard library.",
                "Correct the path or add the module.",
            ),
            Self::ImportFailure => (
                "module import failed",
                "An imported module could not be read or parsed.",
                "import broken",
                "Dependent analysis cannot proceed until the imported module is valid.",
                "Fix the reported problem in that module.",
            ),
            Self::InternalCompiler => (
                "internal compiler error",
                "Mux reached an impossible state or code-generation failure.",
                "compiler-internal failure",
                "This is a compiler bug, not a source-language error.",
                "Report the complete diagnostic and compiler version.",
            ),
            Self::UnusedBinding => (
                "unused binding",
                "A declared binding is never read.",
                "auto unused = 1",
                "The declaration has no observable use.",
                "Remove it, use it, or write _ intentionally.",
            ),
            Self::ShadowedBinding => (
                "shadowed binding",
                "A declaration hides another binding with the same name.",
                "auto x = 1\\nif true { auto x = 2 }",
                "Shadowing can make a nearby use refer to a different value.",
                "Rename the inner binding if accidental.",
            ),
            Self::UnreachableCode => (
                "unreachable code",
                "Control flow can never reach a statement or branch.",
                "return\\nprint(\"never\")",
                "The analyzer proved that an earlier terminator exits the path.",
                "Remove the code or move it before the terminator.",
            ),
            Self::DeadAssignment => (
                "dead assignment",
                "A value is overwritten before it is read.",
                "x = 1\\nx = 2",
                "The first store has no effect on the result.",
                "Remove the first assignment or use its value.",
            ),
            Self::UninitializedRead => (
                "possibly uninitialized read",
                "A variable is read before assignment on a possible path.",
                "int value\\nprint(value)",
                "The analyzer tracks assignments across control-flow paths.",
                "Initialize it or assign on every path.",
            ),
            Self::ConstantCondition => (
                "constant condition",
                "A condition is provably always true or false.",
                "if 1 == 1 { print(\"yes\") }",
                "Constant folding proved the branch outcome.",
                "Remove the condition or use the intended runtime value.",
            ),
            Self::RedundantConstruct => (
                "redundant construct",
                "A construct can be simplified without changing its result.",
                "value && true",
                "The analyzer proved that a boolean operand has no effect on the result.",
                "Apply the suggested simplification.",
            ),
        };
        DiagnosticInfo { code: self, level: self.level(), title, trigger, example, explanation, fix }
    }

    /// The published code with the given text.
    pub fn parse(value: &str) -> (r: Option<Self>)
        ensures
            names(value@, r),
    {
        let codes = Self::all();
        let mut i: usize = 0;
        while i < codes.len()
            invariant
                codes@ == published(),
                i <= codes@.len(),
                forall|j: int| 0 <= j < i ==> (#[trigger] codes@[j]).as_str()@ != value@,
            decreases codes@.len() - i,
        {
            if same(codes[i].as_str(), value) {
                assert(published()[i as int] == codes@[i as int]);
                return Some(codes[i]);
            }
            i += 1;
        }
        None
    }
}

/// The text of a code is its severity letter and its four-digit number.
pub proof fn code_text_is_letter_and_number(code: DiagnosticCode)
    ensures
        code.as_str()@.len() == 5,
        code.as_str()@[0] == (if code.level() == Level::Warning { 'W' } else { 'E' }),
        number_in(code.as_str()@) == number(code),
{
    match code {
        DiagnosticCode::LexUnexpectedCharacter => {
            reveal_strlit("E0100");
        },
        DiagnosticCode::LexUnterminatedString => {
            reveal_strlit("E0101");
        },
        DiagnosticCode::LexUnknownEscape => {
            reveal_strlit("E0102");
        },
        DiagnosticCode::LexUnterminatedComment => {
            reveal_strlit("E0103");
        },
        DiagnosticCode::LexInvalidNumber => {
            reveal_strlit("E0104");
        },
        DiagnosticCode::LexRangeLiteral => {
            reveal_strlit("E0105");
        },
        DiagnosticCode::LexInvalidCharacterLiteral => {
            reveal_strlit("E0106");
        },
        DiagnosticCode::ParseExpectedToken => {
            reveal_strlit("E0200");
        },
        DiagnosticCode::ParseExpectedExpression => {
            reveal_strlit("E0201");
        },
        DiagnosticCode::ParseExpectedType => {
            reveal_strlit("E0202");
        },
        DiagnosticCode::ParseControlFlowOutsideLoop => {
            reveal_strlit("E0203");
        },
        DiagnosticCode::ParseReturnOutsideFunction => {
            reveal_strlit("E0204");
        },
        DiagnosticCode::ParseErrorLimit => {
            reveal_strlit("E0205");
        },
        DiagnosticCode::UndefinedName => {
            reveal_strlit("E0300");
        },
        DiagnosticCode::DuplicateDeclaration => {
            reveal_strlit("E0301");
        },
        DiagnosticCode::TypeMismatch => {
            reveal_strlit("E0302");
        },
        DiagnosticCode::WrongArgumentCount => {
            reveal_strlit("E0303");
        },
        DiagnosticCode::MissingReturn => {
            reveal_strlit("E0304");
        },
        DiagnosticCode::NonExhaustiveMatch => {
            reveal_strlit("E0305");
        },
        DiagnosticCode::CannotAssign => {
            reveal_strlit("E0306");
        },
        DiagnosticCode::UnknownMember => {
            reveal_strlit("E0307");
        },
        DiagnosticCode::InvalidOperation => {
            reveal_strlit("E0308");
        },
        DiagnosticCode::DivisionByZero => {
            reveal_strlit("E0312");
        },
        DiagnosticCode::NestedFunctionCapture => {
            reveal_strlit("E0313");
        },
        DiagnosticCode::InvalidPattern => {
            reveal_strlit("E0309");
        },
        DiagnosticCode::InvalidTypeArguments => {
            reveal_strlit("E0310");
        },
        DiagnosticCode::UninitializedReadError => {
            reveal_strlit("E0311");
        },
        DiagnosticCode::ModuleNotFound => {
            reveal_strlit("E0400");
        },
        DiagnosticCode::ImportFailure => {
            reveal_strlit("E0401");
        },
        DiagnosticCode::InternalCompiler => {
            reveal_strlit("E0900");
        },
        DiagnosticCode::UnusedBinding => {
            reveal_strlit("W0300");
        },
        DiagnosticCode::ShadowedBinding => {
            reveal_strlit("W0301");
        },
        DiagnosticCode::UnreachableCode => {
            reveal_strlit("W0302");
        },
        DiagnosticCode::DeadAssignment => {
            reveal_strlit("W0303");
        },
        DiagnosticCode::UninitializedRead => {
            reveal_strlit("W0304");
        },
        DiagnosticCode::ConstantCondition => {
            reveal_strlit("W0305");
        },
        DiagnosticCode::RedundantConstruct => {
            reveal_strlit("W0306");
        },
    }
}

/// No two codes share a text.
pub proof fn code_texts_are_unique(a: DiagnosticCode, b: DiagnosticCode)
    requires
        a.as_str()@ == b.as_str()@,
    ensures
        a == b,
{
    code_text_is_letter_and_number(a);
    code_text_is_letter_and_number(b);
}

/// A code is published, or held back, and never both.
pub proof fn published_and_held_back_partition(code: DiagnosticCode)
    ensures
        published().contains(code) <==> !held_back().contains(code),
{

    assert(published()[0] == DiagnosticCode::LexUnexpectedCharacter);
    assert(published()[1] == DiagnosticCode::LexUnterminatedString);
    assert(published()[2] == DiagnosticCode::LexUnknownEscape);
    assert(published()[3] == DiagnosticCode::LexUnterminatedComment);
    assert(published()[4] == DiagnosticCode::LexInvalidNumber);
    assert(published()[5] == DiagnosticCode::LexRangeLiteral);
    assert(published()[6] == DiagnosticCode::LexInvalidCharacterLiteral);
    assert(published()[7] == DiagnosticCode::ParseExpectedToken);
    assert(published()[8] == DiagnosticCode::ParseExpectedExpression);
    assert(published()[9] == DiagnosticCode::ParseExpectedType);
    assert(published()[10] == DiagnosticCode::ParseControlFlowOutsideLoop);
    assert(published()[11] == DiagnosticCode::ParseReturnOutsideFunction);
    assert(published()[12] == DiagnosticCode::ParseErrorLimit);
    assert(published()[13] == DiagnosticCode::UndefinedName);
    assert(published()[14] == DiagnosticCode::DuplicateDeclaration);
    assert(published()[15] == DiagnosticCode::TypeMismatch);
    assert(published()[16] == DiagnosticCode::WrongArgumentCount);
    assert(published()[17] == DiagnosticCode::MissingReturn);
    assert(published()[18] == DiagnosticCode::NonExhaustiveMatch);
    assert(published()[19] == DiagnosticCode::CannotAssign);
    assert(published()[20] == DiagnosticCode::UnknownMember);
    assert(published()[21] == DiagnosticCode::InvalidOperation);
    assert(published()[22] == DiagnosticCode::InvalidPattern);
    assert(published()[23] == DiagnosticCode::InvalidTypeArguments);
    assert(published()[24] == DiagnosticCode::UninitializedReadError);
    assert(published()[25] == DiagnosticCode::DivisionByZero);
    assert(published()[26] == DiagnosticCode::NestedFunctionCapture);
    assert(published()[27] == DiagnosticCode::ModuleNotFound);
    assert(published()[28] == DiagnosticCode::ImportFailure);
    assert(published()[29] == DiagnosticCode::InternalCompiler);
    assert(published()[30] == DiagnosticCode::UnreachableCode);
    assert(published()[31] == DiagnosticCode::ConstantCondition);
    assert(published()[32] == DiagnosticCode::RedundantConstruct);
    assert(held_back()[0] == DiagnosticCode::UnusedBinding);
    assert(held_back()[1] == DiagnosticCode::ShadowedBinding);
    assert(held_back()[2] == DiagnosticCode::DeadAssignment);
    assert(held_back()[3] == DiagnosticCode::UninitializedRead);
}

/// Reading back the text of a published code gives that code and no other.
pub proof fn published_code_round_trips(code: DiagnosticCode, found: Option<DiagnosticCode>)
    requires
        published().contains(code),
        names(code.as_str()@, found),
    ensures
        found == Some(code),
{
    if found is Some {
        code_texts_are_unique(found->0, code);
    } else {
        assert(code.as_str()@ != code.as_str()@);
    }
}

/// The published errors come in rising numeric order, and so do the published warnings;
/// every error comes before every warning.
pub proof fn published_codes_rise(i: int, j: int)
    requires
        0 <= i < j < published().len(),
    ensures
        number(published()[i]) < number(published()[j]),
{
}

} // verus!
