//! The syntax tree that the formatter lowers. Every node that trivia can
//! attach to carries the byte span it was parsed from.

use vstd::prelude::*;
use vstd::string::*;

verus! {

/// The name that stands for the hole of a function capture.
pub const CAPTURE_VARIABLE: &'static str = "_capture";

/// A byte span of the source.
#[derive(Debug, Clone, Copy, PartialEq, Eq)]
pub struct SrcSpan {
    pub start: u32,
    pub end: u32,
}

/// A compile target.
#[derive(Debug, Clone, Copy, PartialEq, Eq)]
pub enum Target {
    Erlang,
    JavaScript,
}

#[derive(Debug, PartialEq, Eq)]
pub enum Deprecation {
    NotDeprecated,
    Deprecated { message: String },
}

#[derive(Debug, PartialEq, Eq)]
pub enum AssignName {
    Variable(String),
    Discard(String),
}

#[derive(Debug, PartialEq, Eq)]
#[allow(inconsistent_fields)]
pub enum ArgNames {
    Discard { name: String },
    LabelledDiscard { label: String, name: String },
    Named { name: String },
    NamedLabelled { label: String, name: String },
}

#[derive(Debug, Clone, Copy, PartialEq, Eq)]
pub enum AssignmentKind {
    Let,
    Assert,
}

#[derive(Debug, Clone, Copy, PartialEq, Eq)]
pub enum BinOp {
    And,
    Or,
    Eq,
    NotEq,
    LtInt,
    LtEqInt,
    LtFloat,
    LtEqFloat,
    GtEqInt,
    GtInt,
    GtEqFloat,
    GtFloat,
    AddInt,
    AddFloat,
    SubInt,
    SubFloat,
    MultInt,
    MultFloat,
    DivInt,
    DivFloat,
    RemainderInt,
    Concatenate,
}

/// A type as it is written in the source.
#[derive(Debug, PartialEq, Eq)]
#[allow(inconsistent_fields)]
pub enum TypeAst {
    Constructor { module: Option<String>, name: String, arguments: Vec<TypeAst> },
    Fn { arguments: Vec<TypeAst>, return_: Box<TypeAst> },
    Var { name: String },
    Tuple { elems: Vec<TypeAst> },
    Hole { name: String },
}

/// An argument of a call, a constructor pattern or a constant record.
#[derive(Debug, PartialEq, Eq)]
pub struct CallArg<T> {
    pub label: Option<String>,
    pub location: SrcSpan,
    pub value: T,
}

/// An option of a bit array segment.
#[derive(Debug, PartialEq, Eq)]
#[allow(inconsistent_fields)]
pub enum BitArrayOption<T> {
    Binary,
    Bytes,
    Int,
    Float,
    BitString,
    Bits,
    Utf8,
    Utf16,
    Utf32,
    Utf8Codepoint,
    Utf16Codepoint,
    Utf32Codepoint,
    Signed,
    Unsigned,
    Big,
    Little,
    Native,
    Size { value: Box<T>, short_form: bool },
    Unit { value: u8 },
}

#[derive(Debug, PartialEq, Eq)]
pub struct BitArraySegment<T> {
    pub value: Box<T>,
    pub options: Vec<BitArrayOption<T>>,
}

/// A constant expression.
#[derive(Debug, PartialEq, Eq)]
#[allow(inconsistent_fields)]
pub enum Constant {
    Int { value: String },
    Float { value: String },
    String { value: String },
    Tuple { elements: Vec<Constant> },
    List { elements: Vec<Constant> },
    Record { module: Option<String>, name: String, args: Vec<CallArg<Constant>> },
    BitArray { segments: Vec<BitArraySegment<Constant>> },
    Var { module: Option<String>, name: String },
}

/// A constant with its type already printed.
#[derive(Debug, PartialEq, Eq)]
pub struct TypedConstant {
    pub value: Constant,
    pub type_: String,
}

#[derive(Debug, PartialEq, Eq)]
#[allow(inconsistent_fields)]
pub enum Pattern {
    Int { location: SrcSpan, value: String },
    Float { location: SrcSpan, value: String },
    String { location: SrcSpan, value: String },
    Variable { location: SrcSpan, name: String },
    VarUsage { location: SrcSpan, name: String },
    Assign { location: SrcSpan, name: String, pattern: Box<Pattern> },
    Discard { location: SrcSpan, name: String },
    List { location: SrcSpan, elements: Vec<Pattern>, tail: Option<Box<Pattern>> },
    Constructor {
        location: SrcSpan,
        name: String,
        arguments: Vec<CallArg<Pattern>>,
        module: Option<String>,
        with_spread: bool,
    },
    Tuple { location: SrcSpan, elems: Vec<Pattern> },
    BitArray { location: SrcSpan, segments: Vec<BitArraySegment<Pattern>> },
    StringPrefix {
        location: SrcSpan,
        left_side_string: String,
        left_side_assignment: Option<String>,
        right_side_assignment: AssignName,
    },
}

#[derive(Debug, PartialEq, Eq)]
#[allow(inconsistent_fields)]
pub enum ClauseGuard {
    Equals { left: Box<ClauseGuard>, right: Box<ClauseGuard> },
    NotEquals { left: Box<ClauseGuard>, right: Box<ClauseGuard> },
    GtInt { left: Box<ClauseGuard>, right: Box<ClauseGuard> },
    GtEqInt { left: Box<ClauseGuard>, right: Box<ClauseGuard> },
    LtInt { left: Box<ClauseGuard>, right: Box<ClauseGuard> },
    LtEqInt { left: Box<ClauseGuard>, right: Box<ClauseGuard> },
    GtFloat { left: Box<ClauseGuard>, right: Box<ClauseGuard> },
    GtEqFloat { left: Box<ClauseGuard>, right: Box<ClauseGuard> },
    LtFloat { left: Box<ClauseGuard>, right: Box<ClauseGuard> },
    LtEqFloat { left: Box<ClauseGuard>, right: Box<ClauseGuard> },
    Or { left: Box<ClauseGuard>, right: Box<ClauseGuard> },
    And { left: Box<ClauseGuard>, right: Box<ClauseGuard> },
    Not { expression: Box<ClauseGuard> },
    Var { name: String },
    TupleIndex { index: u64, tuple: Box<ClauseGuard> },
    FieldAccess { label: String, container: Box<ClauseGuard> },
    ModuleSelect { module_name: String, label: String },
    Constant(Constant),
}

/// A parameter of a function.
#[derive(Debug, PartialEq, Eq)]
pub struct Arg {
    pub names: ArgNames,
    pub location: SrcSpan,
    pub annotation: Option<TypeAst>,
}

/// A parameter of a checked function, with its type already printed.
#[derive(Debug, PartialEq, Eq)]
pub struct TypedArg {
    pub names: ArgNames,
    pub type_: String,
}

#[derive(Debug, PartialEq, Eq)]
#[allow(inconsistent_fields)]
pub enum UntypedExpr {
    Int { location: SrcSpan, value: String },
    Float { location: SrcSpan, value: String },
    String { location: SrcSpan, value: String },
    Block { location: SrcSpan, statements: Vec<Statement> },
    Var { location: SrcSpan, name: String },
    Fn {
        location: SrcSpan,
        is_capture: bool,
        arguments: Vec<Arg>,
        body: Vec<Statement>,
        return_annotation: Option<TypeAst>,
    },
    List { location: SrcSpan, elements: Vec<UntypedExpr>, tail: Option<Box<UntypedExpr>> },
    Call { location: SrcSpan, fun: Box<UntypedExpr>, arguments: Vec<CallArg<UntypedExpr>> },
    BinOp { location: SrcSpan, name: BinOp, left: Box<UntypedExpr>, right: Box<UntypedExpr> },
    PipeLine { expressions: Vec<UntypedExpr> },
    Case { location: SrcSpan, subjects: Vec<UntypedExpr>, clauses: Vec<Clause> },
    FieldAccess { location: SrcSpan, label: String, container: Box<UntypedExpr> },
    Tuple { location: SrcSpan, elems: Vec<UntypedExpr> },
    TupleIndex { location: SrcSpan, index: u64, tuple: Box<UntypedExpr> },
    Todo { location: SrcSpan, message: Option<String> },
    Panic { location: SrcSpan, message: Option<String> },
    BitArray { location: SrcSpan, segments: Vec<BitArraySegment<UntypedExpr>> },
    RecordUpdate {
        location: SrcSpan,
        constructor: Box<UntypedExpr>,
        spread: RecordUpdateSpread,
        arguments: Vec<UntypedRecordUpdateArg>,
    },
    NegateBool { location: SrcSpan, value: Box<UntypedExpr> },
    NegateInt { location: SrcSpan, value: Box<UntypedExpr> },
    Placeholder { location: SrcSpan },
}

#[derive(Debug, PartialEq, Eq)]
pub struct RecordUpdateSpread {
    pub base: Box<UntypedExpr>,
    pub location: SrcSpan,
}

#[derive(Debug, PartialEq, Eq)]
pub struct UntypedRecordUpdateArg {
    pub label: String,
    pub location: SrcSpan,
    pub value: UntypedExpr,
}

#[derive(Debug, PartialEq, Eq)]
pub enum Statement {
    Expression(UntypedExpr),
    Assignment(Assignment),
    Use(Use),
}

#[derive(Debug, PartialEq, Eq)]
pub struct Assignment {
    pub location: SrcSpan,
    pub value: Box<UntypedExpr>,
    pub pattern: Pattern,
    pub kind: AssignmentKind,
    pub annotation: Option<TypeAst>,
}

#[derive(Debug, PartialEq, Eq)]
pub struct UseAssignment {
    pub location: SrcSpan,
    pub pattern: Pattern,
    pub annotation: Option<TypeAst>,
}

#[derive(Debug, PartialEq, Eq)]
pub struct Use {
    pub location: SrcSpan,
    pub call: Box<UntypedExpr>,
    pub assignments: Vec<UseAssignment>,
}

/// One clause of a `case`: its patterns, the alternatives after `|`, the guard
/// and the value.
#[derive(Debug, PartialEq, Eq)]
pub struct Clause {
    pub location: SrcSpan,
    pub pattern: Vec<Pattern>,
    pub alternative_patterns: Vec<Vec<Pattern>>,
    pub guard: Option<ClauseGuard>,
    pub body: UntypedExpr,
}

#[derive(Debug, PartialEq, Eq)]
pub struct Function {
    pub location: SrcSpan,
    pub end_position: u32,
    pub name: String,
    pub arguments: Vec<Arg>,
    pub body: Vec<Statement>,
    pub public: bool,
    pub deprecation: Deprecation,
    pub return_annotation: Option<TypeAst>,
    pub external_erlang: Option<(String, String)>,
    pub external_javascript: Option<(String, String)>,
}

#[derive(Debug, PartialEq, Eq)]
pub struct TypeAlias {
    pub location: SrcSpan,
    pub alias: String,
    pub parameters: Vec<String>,
    pub type_ast: TypeAst,
    pub public: bool,
    pub deprecation: Deprecation,
}

#[derive(Debug, PartialEq, Eq)]
pub struct RecordConstructorArg {
    pub label: Option<String>,
    pub ast: TypeAst,
    pub location: SrcSpan,
}

#[derive(Debug, PartialEq, Eq)]
pub struct RecordConstructor {
    pub location: SrcSpan,
    pub name: String,
    pub arguments: Vec<RecordConstructorArg>,
}

#[derive(Debug, PartialEq, Eq)]
pub struct CustomType {
    pub location: SrcSpan,
    pub end_position: u32,
    pub name: String,
    pub public: bool,
    pub constructors: Vec<RecordConstructor>,
    pub opaque: bool,
    pub parameters: Vec<String>,
    pub deprecation: Deprecation,
}

#[derive(Debug, PartialEq, Eq)]
pub struct UnqualifiedImport {
    pub location: SrcSpan,
    pub name: String,
    pub as_name: Option<String>,
}

#[derive(Debug, PartialEq, Eq)]
pub struct Import {
    pub location: SrcSpan,
    pub module: String,
    pub as_name: Option<AssignName>,
    pub unqualified_values: Vec<UnqualifiedImport>,
    pub unqualified_types: Vec<UnqualifiedImport>,
}

#[derive(Debug, PartialEq, Eq)]
pub struct ModuleConstant {
    pub location: SrcSpan,
    pub public: bool,
    pub name: String,
    pub annotation: Option<TypeAst>,
    pub value: Constant,
}

#[derive(Debug, PartialEq, Eq)]
pub enum Definition {
    Function(Function),
    TypeAlias(TypeAlias),
    CustomType(CustomType),
    Import(Import),
    ModuleConstant(ModuleConstant),
}

/// A definition, with the one target it is compiled for if it has one.
#[derive(Debug, PartialEq, Eq)]
pub struct TargetedDefinition {
    pub definition: Definition,
    pub target: Option<Target>,
}

#[derive(Debug, PartialEq, Eq)]
pub struct UntypedModule {
    pub definitions: Vec<TargetedDefinition>,
}

/// The spans that the parser recorded beside the tree.
#[derive(Debug, PartialEq, Eq)]
pub struct ModuleExtra {
    pub module_comments: Vec<SrcSpan>,
    pub doc_comments: Vec<SrcSpan>,
    pub comments: Vec<SrcSpan>,
    pub empty_lines: Vec<u32>,
}

impl BinOp {
    /// How tightly the operator binds; a greater number binds tighter.
    pub open spec fn spec_precedence(self) -> u8 {
        match self {
            BinOp::Or => 1,
            BinOp::And => 2,
            BinOp::Eq | BinOp::NotEq => 3,
            BinOp::LtInt
            | BinOp::LtEqInt
            | BinOp::LtFloat
            | BinOp::LtEqFloat
            | BinOp::GtEqInt
            | BinOp::GtInt
            | BinOp::GtEqFloat
            | BinOp::GtFloat => 4,
            BinOp::Concatenate => 5,
            BinOp::SubInt | BinOp::SubFloat | BinOp::AddInt | BinOp::AddFloat => 7,
            BinOp::MultInt
            | BinOp::MultFloat
            | BinOp::DivInt
            | BinOp::DivFloat
            | BinOp::RemainderInt => 8,
        }
    }

    /// How tightly the operator binds.
    #[verifier::when_used_as_spec(spec_precedence)]
    pub fn precedence(self) -> (r: u8)
        ensures
            r == self.spec_precedence(),
    {
        match self {
            BinOp::Or => 1,
            BinOp::And => 2,
            BinOp::Eq | BinOp::NotEq => 3,
            BinOp::LtInt
            | BinOp::LtEqInt
            | BinOp::LtFloat
            | BinOp::LtEqFloat
            | BinOp::GtEqInt
            | BinOp::GtInt
            | BinOp::GtEqFloat
            | BinOp::GtFloat => 4,
            BinOp::Concatenate => 5,
            BinOp::SubInt | BinOp::SubFloat | BinOp::AddInt | BinOp::AddFloat => 7,
            BinOp::MultInt
            | BinOp::MultFloat
            | BinOp::DivInt
            | BinOp::DivFloat
            | BinOp::RemainderInt => 8,
        }
    }

    /// The operator as it is written, with a space on either side.
    pub open spec fn spec_name(self) -> &'static str {
        match self {
            BinOp::And => " && ",
            BinOp::Or => " || ",
            BinOp::LtInt => " < ",
            BinOp::LtEqInt => " <= ",
            BinOp::LtFloat => " <. ",
            BinOp::LtEqFloat => " <=. ",
            BinOp::Eq => " == ",
            BinOp::NotEq => " != ",
            BinOp::GtEqInt => " >= ",
            BinOp::GtInt => " > ",
            BinOp::GtEqFloat => " >=. ",
            BinOp::GtFloat => " >. ",
            BinOp::AddInt => " + ",
            BinOp::AddFloat => " +. ",
            BinOp::SubInt => " - ",
            BinOp::SubFloat => " -. ",
            BinOp::MultInt => " * ",
            BinOp::MultFloat => " *. ",
            BinOp::DivInt => " / ",
            BinOp::DivFloat => " /. ",
            BinOp::RemainderInt => " % ",
            BinOp::Concatenate => " <> ",
        }
    }

    /// The operator as it is written, with a space on either side.
    #[verifier::when_used_as_spec(spec_name)]
    pub fn name(self) -> (r: &'static str)
        ensures
            r == self.spec_name(),
    {
        match self {
            BinOp::And => " && ",
            BinOp::Or => " || ",
            BinOp::LtInt => " < ",
            BinOp::LtEqInt => " <= ",
            BinOp::LtFloat => " <. ",
            BinOp::LtEqFloat => " <=. ",
            BinOp::Eq => " == ",
            BinOp::NotEq => " != ",
            BinOp::GtEqInt => " >= ",
            BinOp::GtInt => " > ",
            BinOp::GtEqFloat => " >=. ",
            BinOp::GtFloat => " >. ",
            BinOp::AddInt => " + ",
            BinOp::AddFloat => " +. ",
            BinOp::SubInt => " - ",
            BinOp::SubFloat => " -. ",
            BinOp::MultInt => " * ",
            BinOp::MultFloat => " *. ",
            BinOp::DivInt => " / ",
            BinOp::DivFloat => " /. ",
            BinOp::RemainderInt => " % ",
            BinOp::Concatenate => " <> ",
        }
    }
}

} // verus!
