//! Checks that a syntax tree has a shape the lowering is made for. The parser
//! promises it; a caller that cannot rely on the promise checks first.

use vstd::prelude::*;
use crate::ast::{
    BitArrayOption,
    BitArraySegment,
    CallArg,
    Clause,
    Definition,
    Function,
    Statement,
    UntypedExpr,
    UntypedModule,
    UntypedRecordUpdateArg,
};
use crate::definition::{definition_ok, function_ok, is_placeholder, module_ok};
use crate::expr::{
    call_args_ok,
    capture_stage_ok,
    expr_ok,
    segment_ok,
    stage_ok,
    statement_ok,
    statements_ok,
};

verus! {

/// Whether every expression can be lowered.
fn exprs_printable(exprs: &Vec<UntypedExpr>) -> (r: bool)
    ensures
        r == (forall|i: int| 0 <= i < exprs@.len() ==> expr_ok(&#[trigger] exprs@[i])),
    decreases exprs, 0int,
{
    let mut i: usize = 0;
    while i < exprs.len()
        invariant
            i <= exprs@.len(),
            forall|k: int| 0 <= k < i ==> expr_ok(&#[trigger] exprs@[k]),
        decreases exprs@.len() - i,
    {
        if !exprs[i].is_printable() {
            return false;
        }
        i += 1;
    }
    true
}

/// Whether every argument can be lowered.
fn call_args_printable(args: &Vec<CallArg<UntypedExpr>>) -> (r: bool)
    ensures
        r == call_args_ok(args@),
    decreases args, 0int,
{
    let mut i: usize = 0;
    while i < args.len()
        invariant
            i <= args@.len(),
            forall|k: int| 0 <= k < i ==> expr_ok(&(#[trigger] args@[k]).value),
        decreases args@.len() - i,
    {
        if !args[i].value.is_printable() {
            return false;
        }
        i += 1;
    }
    true
}

/// Whether every field of a record update can be lowered.
fn record_update_args_printable(args: &Vec<UntypedRecordUpdateArg>) -> (r: bool)
    ensures
        r == (forall|i: int| 0 <= i < args@.len() ==> expr_ok(&(#[trigger] args@[i]).value)),
    decreases args, 0int,
{
    let mut i: usize = 0;
    while i < args.len()
        invariant
            i <= args@.len(),
            forall|k: int| 0 <= k < i ==> expr_ok(&(#[trigger] args@[k]).value),
        decreases args@.len() - i,
    {
        if !args[i].value.is_printable() {
            return false;
        }
        i += 1;
    }
    true
}

/// Whether every clause can be lowered.
fn clauses_printable(clauses: &Vec<Clause>) -> (r: bool)
    ensures
        r == (forall|i: int| 0 <= i < clauses@.len() ==> expr_ok(&(#[trigger] clauses@[i]).body)),
    decreases clauses, 0int,
{
    let mut i: usize = 0;
    while i < clauses.len()
        invariant
            i <= clauses@.len(),
            forall|k: int| 0 <= k < i ==> expr_ok(&(#[trigger] clauses@[k]).body),
        decreases clauses@.len() - i,
    {
        if !clauses[i].body.is_printable() {
            return false;
        }
        i += 1;
    }
    true
}

/// Whether a segment can be lowered.
fn segment_printable(segment: &BitArraySegment<UntypedExpr>) -> (r: bool)
    ensures
        r == segment_ok(segment),
    decreases segment, 0int,
{
    if !segment.value.is_printable() {
        return false;
    }
    let options = &segment.options;
    let mut i: usize = 0;
    while i < options.len()
        invariant
            i <= options@.len(),
            options == &segment.options,
            expr_ok(&*segment.value),
            forall|k: int|
                0 <= k < i ==> (#[trigger] options@[k] matches BitArrayOption::Size { value, .. }
                    ==> expr_ok(&*value)),
        decreases options@.len() - i,
    {
        match &options[i] {
            BitArrayOption::Size { value, .. } => {
                if !value.is_printable() {
                    return false;
                }
            },
            _ => {},
        }
        i += 1;
    }
    true
}

/// Whether every segment can be lowered.
fn segments_printable(segments: &Vec<BitArraySegment<UntypedExpr>>) -> (r: bool)
    ensures
        r == (forall|i: int| 0 <= i < segments@.len() ==> segment_ok(&#[trigger] segments@[i])),
    decreases segments, 0int,
{
    let mut i: usize = 0;
    while i < segments.len()
        invariant
            i <= segments@.len(),
            forall|k: int| 0 <= k < i ==> segment_ok(&#[trigger] segments@[k]),
        decreases segments@.len() - i,
    {
        if !segment_printable(&segments[i]) {
            return false;
        }
        i += 1;
    }
    true
}

/// Whether a statement can be lowered.
fn statement_printable(statement: &Statement) -> (r: bool)
    ensures
        r == statement_ok(statement),
    decreases statement, 0int,
{
    match statement {
        Statement::Expression(e) => e.is_printable(),
        Statement::Assignment(a) => a.value.is_printable(),
        Statement::Use(u) => u.call.is_printable(),
    }
}

/// Whether a list of statements can be lowered.
pub fn statements_printable(statements: &Vec<Statement>) -> (r: bool)
    ensures
        r == statements_ok(statements@),
    decreases statements, 0int,
{
    if statements.len() == 0 {
        return false;
    }
    let mut i: usize = 0;
    while i < statements.len()
        invariant
            i <= statements@.len(),
            statements@.len() > 0,
            forall|k: int| 0 <= k < i ==> statement_ok(&#[trigger] statements@[k]),
        decreases statements@.len() - i,
    {
        if !statement_printable(&statements[i]) {
            return false;
        }
        i += 1;
    }
    true
}

/// Whether the body of a capture is the one call that a stage of a
/// pipeline needs.
fn capture_stage_printable(body: &Vec<Statement>) -> (r: bool)
    ensures
        r == capture_stage_ok(body@),
    decreases body, 0int,
{
    if body.len() == 0 {
        return false;
    }
    match &body[0] {
        Statement::Expression(UntypedExpr::Call { fun, arguments, .. }) => fun.is_printable()
            && call_args_printable(arguments),
        _ => false,
    }
}

/// Whether an expression can be lowered as a stage of a pipeline.
fn stage_printable(expr: &UntypedExpr) -> (r: bool)
    ensures
        r == stage_ok(expr),
    decreases expr, 2int,
{
    match expr {
        UntypedExpr::Fn { is_capture: true, body, .. } => capture_stage_printable(body),
        _ => expr.is_printable(),
    }
}

/// Whether every stage of a pipeline can be lowered.
fn stages_printable(stages: &Vec<UntypedExpr>) -> (r: bool)
    ensures
        r == {
            &&& stages@.len() > 0
            &&& expr_ok(&stages@[0])
            &&& forall|i: int| 1 <= i < stages@.len() ==> stage_ok(&#[trigger] stages@[i])
        },
    decreases stages, 0int,
{
    if stages.len() == 0 || !stages[0].is_printable() {
        return false;
    }
    let mut i: usize = 1;
    while i < stages.len()
        invariant
            1 <= i <= stages@.len(),
            expr_ok(&stages@[0]),
            forall|k: int| 1 <= k < i ==> stage_ok(&#[trigger] stages@[k]),
        decreases stages@.len() - i,
    {
        if !stage_printable(&stages[i]) {
            return false;
        }
        i += 1;
    }
    true
}

impl UntypedExpr {
    /// Whether the expression can be lowered: see [`expr_ok`].
    pub fn is_printable(&self) -> (r: bool)
        ensures
            r == expr_ok(self),
        decreases self, 1int,
    {
        match self {
            UntypedExpr::Placeholder { .. } => false,
            UntypedExpr::Int { .. }
            | UntypedExpr::Float { .. }
            | UntypedExpr::String { .. }
            | UntypedExpr::Var { .. }
            | UntypedExpr::Todo { .. }
            | UntypedExpr::Panic { .. } => true,
            UntypedExpr::Block { statements, .. } => statements_printable(statements),
            UntypedExpr::Fn { is_capture, body, .. } => if *is_capture {
                body.len() == 1 && capture_stage_printable(body)
            } else {
                statements_printable(body)
            },
            UntypedExpr::List { elements, tail, .. } => exprs_printable(elements) && match tail {
                Some(tail) => tail.is_printable(),
                None => true,
            },
            UntypedExpr::Call { fun, arguments, .. } => fun.is_printable() && call_args_printable(
                arguments,
            ),
            UntypedExpr::BinOp { left, right, .. } => left.is_printable() && right.is_printable(),
            UntypedExpr::PipeLine { expressions } => stages_printable(expressions),
            UntypedExpr::Case { subjects, clauses, .. } => exprs_printable(subjects)
                && clauses_printable(clauses),
            UntypedExpr::FieldAccess { container, .. } => container.is_printable(),
            UntypedExpr::Tuple { elems, .. } => exprs_printable(elems),
            UntypedExpr::TupleIndex { tuple, .. } => tuple.is_printable(),
            UntypedExpr::BitArray { segments, .. } => segments_printable(segments),
            UntypedExpr::RecordUpdate { constructor, spread, arguments, .. } => {
                constructor.is_printable() && spread.base.is_printable()
                    && record_update_args_printable(arguments)
            },
            UntypedExpr::NegateBool { value, .. } => value.is_printable(),
            UntypedExpr::NegateInt { value, .. } => value.is_printable(),
        }
    }
}

impl Function {
    /// Whether the function can be lowered: see [`function_ok`].
    pub fn is_printable(&self) -> (r: bool)
        ensures
            r == function_ok(self),
    {
        (self.body.len() == 1 && is_placeholder(&self.body[0])) || statements_printable(&self.body)
    }
}

impl Definition {
    /// Whether the definition can be lowered: see [`definition_ok`].
    pub fn is_printable(&self) -> (r: bool)
        ensures
            r == definition_ok(self),
    {
        match self {
            Definition::Function(f) => f.is_printable(),
            _ => true,
        }
    }
}

impl UntypedModule {
    /// Whether the module can be lowered: see [`module_ok`].
    pub fn is_printable(&self) -> (r: bool)
        ensures
            r == module_ok(self),
    {
        let mut i: usize = 0;
        while i < self.definitions.len()
            invariant
                i <= self.definitions@.len(),
                forall|k: int|
                    0 <= k < i ==> definition_ok(&(#[trigger] self.definitions@[k]).definition),
            decreases self.definitions@.len() - i,
        {
            if !self.definitions[i].definition.is_printable() {
                return false;
            }
            i += 1;
        }
        true
    }
}

} // verus!
