//! Lowering of expressions and statements.

use vstd::prelude::*;
use vstd::string::*;
use crate::ast::{
    Arg,
    ArgNames,
    Assignment,
    AssignmentKind,
    BitArrayOption,
    BitArraySegment,
    CallArg,
    Clause,
    SrcSpan,
    Statement,
    UntypedExpr,
    UntypedRecordUpdateArg,
    Use,
    UseAssignment,
    CAPTURE_VARIABLE,
};
use crate::guard::{binary, binary_doc, clause_guard, guard_doc, operand, operator_side_doc};
use crate::literal::{decimal, float, float_doc, int_, int_doc, number, string, string_doc};
use crate::pattern::{pattern_low, patterns_low};
use crate::pretty::{
    break_,
    concat,
    docs_of,
    intersperse,
    interspersed,
    join,
    line,
    lines,
    nil,
    text,
    Doc,
    Document,
    INDENT,
};
use crate::segment::{option_doc, segment_option};
use crate::trivia::{
    commented,
    commented_doc,
    printed,
    push_doc,
    Formatter,
    Lowered,
    LoweredAll,
    Trivia,
};
use crate::types::{type_ast, type_doc};
use crate::wrap::{
    bit_array,
    bit_array_doc,
    break_block,
    break_block_doc,
    comma,
    comma_doc,
    wrap_args,
    wrap_args_doc,
    wrap_block,
    wrap_block_doc,
};

verus! {

/// The span an expression was parsed from. A pipeline has the span of its
/// last stage.
pub open spec fn expr_span(e: &UntypedExpr) -> SrcSpan
    decreases e,
{
    match e {
        UntypedExpr::PipeLine { expressions } => if expressions@.len() > 0 {
            expr_span(&expressions@[expressions@.len() - 1])
        } else {
            SrcSpan { start: 0, end: 0 }
        },
        UntypedExpr::Int { location, .. }
        | UntypedExpr::Float { location, .. }
        | UntypedExpr::String { location, .. }
        | UntypedExpr::Block { location, .. }
        | UntypedExpr::Var { location, .. }
        | UntypedExpr::Fn { location, .. }
        | UntypedExpr::List { location, .. }
        | UntypedExpr::Call { location, .. }
        | UntypedExpr::BinOp { location, .. }
        | UntypedExpr::Case { location, .. }
        | UntypedExpr::FieldAccess { location, .. }
        | UntypedExpr::Tuple { location, .. }
        | UntypedExpr::TupleIndex { location, .. }
        | UntypedExpr::Todo { location, .. }
        | UntypedExpr::Panic { location, .. }
        | UntypedExpr::BitArray { location, .. }
        | UntypedExpr::RecordUpdate { location, .. }
        | UntypedExpr::NegateBool { location, .. }
        | UntypedExpr::NegateInt { location, .. }
        | UntypedExpr::Placeholder { location } => *location,
    }
}

/// The offset at which an expression starts. A pipeline starts where its
/// first stage does.
pub open spec fn expr_start(e: &UntypedExpr) -> u32
    decreases e,
{
    match e {
        UntypedExpr::PipeLine { expressions } => if expressions@.len() > 0 {
            expr_start(&expressions@[0])
        } else {
            0
        },
        _ => expr_span(e).start,
    }
}

/// The span a statement was parsed from.
pub open spec fn statement_span(s: &Statement) -> SrcSpan {
    match s {
        Statement::Expression(e) => expr_span(e),
        Statement::Assignment(a) => a.location,
        Statement::Use(u) => u.location,
    }
}

/// How tightly an expression binds as an operand: a binary operation as its
/// operator does, a pipeline at 5, anything else tighter than any operator.
pub open spec fn expr_precedence(e: &UntypedExpr) -> u8 {
    match e {
        UntypedExpr::BinOp { name, .. } => name.spec_precedence(),
        UntypedExpr::PipeLine { .. } => 5,
        _ => u8::MAX,
    }
}

/// Whether the first `n` expressions of `elements` are all simple.
pub open spec fn exprs_simple(elements: Seq<UntypedExpr>, n: int) -> bool
    decreases elements, n,
{
    if n <= 0 || n > elements.len() {
        true
    } else {
        exprs_simple(elements, n - 1) && expr_simple(&elements[n - 1])
    }
}

/// A simple expression is a number, a string, a bare name, or a tuple or list
/// without tail of simple expressions.
pub open spec fn expr_simple(e: &UntypedExpr) -> bool
    decreases e, 0int,
{
    match e {
        UntypedExpr::Int { .. }
        | UntypedExpr::Float { .. }
        | UntypedExpr::String { .. }
        | UntypedExpr::Var { .. } => true,
        UntypedExpr::Tuple { elems, .. } => exprs_simple(elems@, elems@.len() as int),
        UntypedExpr::List { elements, tail, .. } => tail is None && exprs_simple(
            elements@,
            elements@.len() as int,
        ),
        _ => false,
    }
}

/// Whether the values of the first `n` segments are all simple.
pub open spec fn expr_segments_simple(segments: Seq<BitArraySegment<UntypedExpr>>, n: int) -> bool
    decreases n,
{
    if n <= 0 || n > segments.len() {
        true
    } else {
        expr_segments_simple(segments, n - 1) && expr_simple(&*segments[n - 1].value)
    }
}

/// Whether an expression, as the only argument of a call, may hug the
/// parentheses.
pub open spec fn expr_breakable(e: &UntypedExpr) -> bool {
    e is Fn || e is Block || e is Call || e is Case || e is List || e is Tuple || e is BitArray
}

/// Whether the expression is the hole of a function capture.
pub open spec fn is_hole(e: &UntypedExpr) -> bool {
    e matches UntypedExpr::Var { name, .. } && name@ == CAPTURE_VARIABLE@
}

/// Whether every argument can be lowered.
pub open spec fn call_args_ok(args: Seq<CallArg<UntypedExpr>>) -> bool
    decreases args, 0int,
{
    forall|i: int| 0 <= i < args.len() ==> expr_ok(&(#[trigger] args[i]).value)
}

/// Whether a list of statements can be lowered: it is not empty, and each of
/// its statements can.
pub open spec fn statements_ok(statements: Seq<Statement>) -> bool
    decreases statements, 0int,
{
    &&& statements.len() > 0
    &&& forall|i: int| 0 <= i < statements.len() ==> statement_ok(&#[trigger] statements[i])
}

/// Whether a statement can be lowered.
pub open spec fn statement_ok(s: &Statement) -> bool
    decreases s, 0int,
{
    match s {
        Statement::Expression(e) => expr_ok(e),
        Statement::Assignment(a) => expr_ok(&*a.value),
        Statement::Use(u) => expr_ok(&*u.call),
    }
}

/// Whether the body of a function capture has the shape that a capture as
/// the stage of a pipeline needs: its first statement is a call.
pub open spec fn capture_stage_ok(body: Seq<Statement>) -> bool
    decreases body, 0int,
{
    &&& body.len() > 0
    &&& body[0] matches Statement::Expression(UntypedExpr::Call { fun, arguments, .. })
    &&& expr_ok(&*fun)
    &&& call_args_ok(arguments@)
}

/// Whether an expression can be lowered as a stage of a pipeline.
pub open spec fn stage_ok(e: &UntypedExpr) -> bool
    decreases e, 2int,
{
    match e {
        UntypedExpr::Fn { is_capture: true, body, .. } => capture_stage_ok(body@),
        _ => expr_ok(e),
    }
}

/// Whether an expression can be lowered: no placeholder stands where an
/// expression is printed, every block, function body and pipeline has at
/// least one member, and the body of every function capture is one call.
pub open spec fn expr_ok(e: &UntypedExpr) -> bool
    decreases e, 1int,
{
    match e {
        UntypedExpr::Placeholder { .. } => false,
        UntypedExpr::Int { .. }
        | UntypedExpr::Float { .. }
        | UntypedExpr::String { .. }
        | UntypedExpr::Var { .. }
        | UntypedExpr::Todo { .. }
        | UntypedExpr::Panic { .. } => true,
        UntypedExpr::Block { statements, .. } => statements_ok(statements@),
        UntypedExpr::Fn { is_capture, body, .. } => if *is_capture {
            body@.len() == 1 && capture_stage_ok(body@)
        } else {
            statements_ok(body@)
        },
        UntypedExpr::List { elements, tail, .. } => {
            &&& forall|i: int| 0 <= i < elements@.len() ==> expr_ok(&#[trigger] elements@[i])
            &&& tail matches Some(tail) ==> expr_ok(&**tail)
        },
        UntypedExpr::Call { fun, arguments, .. } => expr_ok(&**fun) && call_args_ok(arguments@),
        UntypedExpr::BinOp { left, right, .. } => expr_ok(&**left) && expr_ok(&**right),
        UntypedExpr::PipeLine { expressions } => {
            &&& expressions@.len() > 0
            &&& expr_ok(&expressions@[0])
            &&& forall|i: int| 1 <= i < expressions@.len() ==> stage_ok(&#[trigger] expressions@[i])
        },
        UntypedExpr::Case { subjects, clauses, .. } => {
            &&& forall|i: int| 0 <= i < subjects@.len() ==> expr_ok(&#[trigger] subjects@[i])
            &&& forall|i: int| 0 <= i < clauses@.len() ==> expr_ok(&(#[trigger] clauses@[i]).body)
        },
        UntypedExpr::FieldAccess { container, .. } => expr_ok(&**container),
        UntypedExpr::Tuple { elems, .. } => forall|i: int|
            0 <= i < elems@.len() ==> expr_ok(&#[trigger] elems@[i]),
        UntypedExpr::TupleIndex { tuple, .. } => expr_ok(&**tuple),
        UntypedExpr::BitArray { segments, .. } => forall|i: int|
            0 <= i < segments@.len() ==> segment_ok(&#[trigger] segments@[i]),
        UntypedExpr::RecordUpdate { constructor, spread, arguments, .. } => {
            &&& expr_ok(&**constructor)
            &&& expr_ok(&*spread.base)
            &&& forall|i: int| 0 <= i < arguments@.len() ==> expr_ok(&(#[trigger] arguments@[i]).value)
        },
        UntypedExpr::NegateBool { value, .. } => expr_ok(&**value),
        UntypedExpr::NegateInt { value, .. } => expr_ok(&**value),
    }
}

/// Whether a segment of a bit array can be lowered.
pub open spec fn segment_ok(segment: &BitArraySegment<UntypedExpr>) -> bool
    decreases segment, 0int,
{
    &&& expr_ok(&*segment.value)
    &&& forall|i: int|
        0 <= i < segment.options@.len() ==> (#[trigger] segment.options@[i]
            matches BitArrayOption::Size { value, .. } ==> expr_ok(&*value))
}

/// The names of a parameter.
pub open spec fn names_doc(names: &ArgNames) -> Doc {
    match names {
        ArgNames::Named { name } | ArgNames::Discard { name } => Doc::text(name@),
        ArgNames::LabelledDiscard { label, name } | ArgNames::NamedLabelled { label, name } => {
            Doc::text(label@).append(Doc::text(" "@)).append(Doc::text(name@))
        },
    }
}

/// A parameter under the comments before it.
pub open spec fn fn_arg_low(arg: &Arg, t: Trivia) -> Lowered {
    let doc = match arg.annotation {
        None => names_doc(&arg.names),
        Some(annotation) => names_doc(&arg.names).append(Doc::text(": "@)).append(
            type_doc(&annotation),
        ),
    };
    Lowered {
        doc: commented_doc(doc.group(), t.comments_upto(arg.location.start)),
        trivia: t.after_comments(arg.location.start),
    }
}

/// Lowers the first `n` parameters, one after the other.
pub open spec fn fn_args_low(args: Seq<Arg>, n: int, t: Trivia) -> LoweredAll
    decreases n,
{
    if n <= 0 || n > args.len() {
        LoweredAll { docs: Seq::empty(), trivia: t }
    } else {
        let before = fn_args_low(args, n - 1, t);
        let next = fn_arg_low(&args[n - 1], before.trivia);
        LoweredAll { docs: before.docs.push(next.doc), trivia: next.trivia }
    }
}

/// The pattern of one assignment of a `use`, with its annotation.
pub open spec fn use_assignment_low(assignment: &UseAssignment, t: Trivia) -> Lowered {
    let pattern = pattern_low(&assignment.pattern, t);
    let annotation = match assignment.annotation {
        Some(annotation) => Doc::text(": "@).append(type_doc(&annotation)),
        None => Doc::Nil,
    };
    Lowered { doc: pattern.doc.append(annotation).group(), trivia: pattern.trivia }
}

/// Lowers the first `n` patterns of a `use`, one after the other.
pub open spec fn use_assignments_low(assignments: Seq<UseAssignment>, n: int, t: Trivia) -> LoweredAll
    decreases n,
{
    if n <= 0 || n > assignments.len() {
        LoweredAll { docs: Seq::empty(), trivia: t }
    } else {
        let before = use_assignments_low(assignments, n - 1, t);
        let next = use_assignment_low(&assignments[n - 1], before.trivia);
        LoweredAll { docs: before.docs.push(next.doc), trivia: next.trivia }
    }
}

/// The left side of a `use`: the keyword and the patterns with commas.
pub open spec fn use_left_doc(assignments: Seq<Doc>) -> Doc {
    Doc::concat(
        seq![Doc::text("use"@), Doc::break_(""@, " "@)] + interspersed(
            assignments,
            Doc::break_(","@, ", "@),
        ),
    ).nest(INDENT as nat).append(Doc::break_(""@, " "@)).group()
}

/// The alternatives of a clause, each a list of patterns with commas.
pub open spec fn alternatives_low(
    alternatives: Seq<Vec<crate::ast::Pattern>>,
    n: int,
    t: Trivia,
) -> LoweredAll
    decreases n,
{
    if n <= 0 || n > alternatives.len() {
        LoweredAll { docs: Seq::empty(), trivia: t }
    } else {
        let before = alternatives_low(alternatives, n - 1, t);
        let next = patterns_low(
            alternatives[n - 1]@,
            alternatives[n - 1]@.len() as int,
            before.trivia,
        );
        LoweredAll {
            docs: before.docs.push(Doc::join(next.docs, Doc::text(", "@))),
            trivia: next.trivia,
        }
    }
}

/// The offset up to which blank lines count as standing before the statement
/// that follows the one that ended at `previous`.
pub open spec fn next_position(previous: u32) -> u32 {
    if previous == u32::MAX {
        previous
    } else {
        (previous + 1) as u32
    }
}

/// The document of a `case`: the subjects between `case` and `{`, then the
/// clauses, always broken.
pub open spec fn case_doc(subjects: Seq<Doc>, clauses: Seq<Doc>) -> Doc {
    Doc::break_("case"@, "case "@).append(Doc::join(subjects, Doc::break_(","@, ", "@))).nest(
        INDENT as nat,
    ).append(Doc::break_(""@, " "@)).append(Doc::text("{"@)).group().append(
        Doc::line().append(Doc::concat(clauses)).nest(INDENT as nat),
    ).append(Doc::line()).append(Doc::text("}"@)).force_break()
}

/// The document of a record update: the constructor, then the spread and the
/// fields as its arguments.
pub open spec fn record_update_doc(constructor: Doc, spread: Doc, args: Seq<Doc>) -> Doc {
    constructor.append(wrap_args_doc(seq![spread] + args)).group()
}

/// The head of a clause: its patterns and alternatives, and its guard.
pub open spec fn clause_head_doc(
    patterns: Seq<Doc>,
    alternatives: Seq<Doc>,
    guard: Option<crate::ast::ClauseGuard>,
) -> Doc {
    let all = seq![Doc::join(patterns, Doc::text(", "@))] + alternatives;
    let doc = Doc::join(all, Doc::break_(""@, " "@).append(Doc::text("| "@))).group();
    match guard {
        None => doc,
        Some(guard) => doc.append(Doc::text(" if "@)).append(guard_doc(&guard)),
    }
}

/// The first `n` expressions of `exprs`, lowered one after the other.
pub open spec fn exprs_low(exprs: Seq<UntypedExpr>, n: int, t: Trivia) -> LoweredAll
    decreases exprs, n,
{
    if n <= 0 || n > exprs.len() {
        LoweredAll { docs: Seq::empty(), trivia: t }
    } else {
        let before = exprs_low(exprs, n - 1, t);
        let next = expr_low(&exprs[n - 1], before.trivia);
        LoweredAll { docs: before.docs.push(next.doc), trivia: next.trivia }
    }
}

/// An argument of a call. The comments before a labelled argument stand above
/// its label.
pub open spec fn call_arg_low(arg: &CallArg<UntypedExpr>, t: Trivia) -> Lowered
    decreases arg, 0int,
{
    let label = match arg.label {
        Some(label) => Lowered {
            doc: commented_doc(
                Doc::text(label@).append(Doc::text(": "@)),
                t.comments_upto(arg.location.start),
            ),
            trivia: t.after_comments(arg.location.start),
        },
        None => Lowered { doc: Doc::Nil, trivia: t },
    };
    let value = expr_low(&arg.value, label.trivia);
    Lowered { doc: label.doc.append(value.doc), trivia: value.trivia }
}

/// The arguments `args[from..n]`, lowered one after the other.
pub open spec fn call_args_low(
    args: Seq<CallArg<UntypedExpr>>,
    from: int,
    n: int,
    t: Trivia,
) -> LoweredAll
    decreases args, n,
{
    if n <= from || from < 0 || n > args.len() {
        LoweredAll { docs: Seq::empty(), trivia: t }
    } else {
        let before = call_args_low(args, from, n - 1, t);
        let next = call_arg_low(&args[n - 1], before.trivia);
        LoweredAll { docs: before.docs.push(next.doc), trivia: next.trivia }
    }
}

/// A field of a record update under the comments before it.
pub open spec fn record_update_arg_low(arg: &UntypedRecordUpdateArg, t: Trivia) -> Lowered
    decreases arg, 0int,
{
    let value = expr_low(&arg.value, t.after_comments(arg.location.start));
    Lowered {
        doc: commented_doc(
            Doc::text(arg.label@).append(Doc::text(": "@)).append(value.doc),
            t.comments_upto(arg.location.start),
        ),
        trivia: value.trivia,
    }
}

/// Lowers the first `n` fields of a record update, one after the other.
pub open spec fn record_update_args_low(
    args: Seq<UntypedRecordUpdateArg>,
    n: int,
    t: Trivia,
) -> LoweredAll
    decreases args, n,
{
    if n <= 0 || n > args.len() {
        LoweredAll { docs: Seq::empty(), trivia: t }
    } else {
        let before = record_update_args_low(args, n - 1, t);
        let next = record_update_arg_low(&args[n - 1], before.trivia);
        LoweredAll { docs: before.docs.push(next.doc), trivia: next.trivia }
    }
}

/// The value of a segment of a bit array: a binary operation in braces,
/// anything else as it is.
pub open spec fn segment_expr_low(e: &UntypedExpr, t: Trivia) -> Lowered
    decreases e, 2int,
{
    let inner = expr_low(e, t);
    if e is BinOp {
        Lowered { doc: wrap_block_doc(inner.doc), trivia: inner.trivia }
    } else {
        inner
    }
}

/// Lowers the first `n` options of a segment, one after the other.
pub open spec fn expr_options_low(
    options: Seq<BitArrayOption<UntypedExpr>>,
    n: int,
    t: Trivia,
) -> LoweredAll
    decreases options, n,
{
    if n <= 0 || n > options.len() {
        LoweredAll { docs: Seq::empty(), trivia: t }
    } else {
        let before = expr_options_low(options, n - 1, t);
        let inner = match options[n - 1] {
            BitArrayOption::Size { value, .. } => segment_expr_low(&*value, before.trivia),
            _ => Lowered { doc: Doc::Nil, trivia: before.trivia },
        };
        LoweredAll {
            docs: before.docs.push(option_doc(&options[n - 1], inner.doc)),
            trivia: inner.trivia,
        }
    }
}

/// A segment of a bit array: its value, and its options after a colon with
/// dashes between them.
pub open spec fn expr_segment_low(segment: &BitArraySegment<UntypedExpr>, t: Trivia) -> Lowered
    decreases segment, 0int,
{
    let value = segment_expr_low(&*segment.value, t);
    if segment.options@.len() == 0 {
        value
    } else {
        let options = expr_options_low(
            segment.options@,
            segment.options@.len() as int,
            value.trivia,
        );
        Lowered {
            doc: value.doc.append(Doc::text(":"@)).append(Doc::join(options.docs, Doc::text("-"@))),
            trivia: options.trivia,
        }
    }
}

/// Lowers the first `n` segments of a bit array, one after the other.
pub open spec fn expr_segments_low(
    segments: Seq<BitArraySegment<UntypedExpr>>,
    n: int,
    t: Trivia,
) -> LoweredAll
    decreases segments, n,
{
    if n <= 0 || n > segments.len() {
        LoweredAll { docs: Seq::empty(), trivia: t }
    } else {
        let before = expr_segments_low(segments, n - 1, t);
        let next = expr_segment_low(&segments[n - 1], before.trivia);
        LoweredAll { docs: before.docs.push(next.doc), trivia: next.trivia }
    }
}

/// The first `n` statements, each as a group, with a line break before every
/// statement but the first, and a blank line instead where the source had one
/// or more.
pub open spec fn statements_upto(statements: Seq<Statement>, n: int, t: Trivia) -> LoweredAll
    decreases statements, n,
{
    if n <= 0 || n > statements.len() {
        LoweredAll { docs: Seq::empty(), trivia: t }
    } else {
        let before = statements_upto(statements, n - 1, t);
        let previous: u32 = if n == 1 {
            0
        } else {
            statement_span(&statements[n - 2]).end
        };
        let limit = next_position(previous);
        let next = statement_low(&statements[n - 1], before.trivia.after_empty_lines(limit));
        let docs = if n == 1 {
            before.docs
        } else if before.trivia.blank_upto(limit) {
            before.docs.push(Doc::lines(2))
        } else {
            before.docs.push(Doc::lines(1))
        };
        LoweredAll { docs: docs.push(next.doc.group()), trivia: next.trivia }
    }
}

/// A list of statements: broken, unless it is a single expression.
pub open spec fn statements_low(statements: Seq<Statement>, t: Trivia) -> Lowered
    decreases statements, statements.len() + 1,
{
    let all = statements_upto(statements, statements.len() as int, t);
    let doc = Doc::concat(all.docs);
    Lowered {
        doc: if statements.len() == 1 && statements[0] is Expression {
            doc
        } else {
            doc.force_break()
        },
        trivia: all.trivia,
    }
}

/// Lowers one statement.
pub open spec fn statement_low(s: &Statement, t: Trivia) -> Lowered
    decreases s, 0int,
{
    match s {
        Statement::Expression(e) => expr_low(e, t),
        Statement::Assignment(a) => assignment_low(a, t),
        Statement::Use(u) => use_low(u, t),
    }
}

/// An assignment under the comments before it. The blank lines up to the end
/// of its pattern are dropped.
pub open spec fn assignment_low(a: &Assignment, t: Trivia) -> Lowered
    decreases a, 0int,
{
    let keyword = match a.kind {
        AssignmentKind::Let => "let "@,
        AssignmentKind::Assert => "let assert "@,
    };
    let pattern = pattern_low(
        &a.pattern,
        t.after_comments(a.location.start).after_empty_lines(a.pattern.span().end),
    );
    let annotation = match a.annotation {
        Some(annotation) => Doc::text(": "@).append(type_doc(&annotation)),
        None => Doc::Nil,
    };
    let value = assigned_low(&*a.value, pattern.trivia);
    Lowered {
        doc: commented_doc(
            Doc::text(keyword).append(pattern.doc.append(annotation).group()).append(
                Doc::text(" ="@),
            ).append(value.doc),
            t.comments_upto(a.location.start),
        ),
        trivia: value.trivia,
    }
}

/// A `use` under the comments before it. Its call is lowered before its
/// patterns.
pub open spec fn use_low(u: &Use, t: Trivia) -> Lowered
    decreases u, 0int,
{
    let call = expr_low(&*u.call, t.after_comments(u.location.start));
    let call_doc = (if *u.call is Call {
        Doc::text(" "@).append(call.doc)
    } else {
        Doc::break_(""@, " "@).append(call.doc).nest(INDENT as nat)
    }).group();
    let inner = if u.assignments@.len() == 0 {
        Lowered { doc: Doc::text("use <-"@).append(call_doc), trivia: call.trivia }
    } else {
        let assignments = use_assignments_low(
            u.assignments@,
            u.assignments@.len() as int,
            call.trivia,
        );
        Lowered {
            doc: use_left_doc(assignments.docs).append(Doc::text("<-"@)).append(call_doc).group(),
            trivia: assignments.trivia,
        }
    };
    Lowered {
        doc: commented_doc(inner.doc, t.comments_upto(u.location.start)),
        trivia: inner.trivia,
    }
}

/// An anonymous function.
pub open spec fn expr_fn_low(e: &UntypedExpr, t: Trivia) -> Lowered
    decreases e, 0int,
{
    match e {
        UntypedExpr::Fn { arguments, body, return_annotation, .. } => {
            let args = fn_args_low(arguments@, arguments@.len() as int, t);
            let body = statements_low(body@, args.trivia);
            let header = Doc::text("fn"@).append(wrap_args_doc(args.docs).group());
            let header = match return_annotation {
                None => header,
                Some(annotation) => header.append(Doc::text(" -> "@)).append(type_doc(annotation)),
            };
            Lowered {
                doc: header.append(Doc::text(" "@)).append(wrap_block_doc(body.doc)).group(),
                trivia: body.trivia,
            }
        },
        _ => Lowered { doc: Doc::Nil, trivia: t },
    }
}

/// A list. A list of simple elements without tail packs its lines. The
/// comments before the tail are popped after the elements.
pub open spec fn list_low(e: &UntypedExpr, t: Trivia) -> Lowered
    decreases e, 0int,
{
    match e {
        UntypedExpr::List { elements, tail, .. } => {
            if elements@.len() == 0 {
                match tail {
                    Some(tail) => expr_low(&**tail, t),
                    None => Lowered { doc: Doc::text("[]"@), trivia: t },
                }
            } else {
                let separator = comma_doc(
                    tail is None && exprs_simple(elements@, elements@.len() as int),
                );
                let items = exprs_low(elements@, elements@.len() as int, t);
                let doc = Doc::break_("["@, "["@).append(Doc::join(items.docs, separator));
                match tail {
                    None => Lowered {
                        doc: doc.nest(INDENT as nat).append(Doc::break_(","@, ""@)).append(
                            Doc::text("]"@),
                        ).group(),
                        trivia: items.trivia,
                    },
                    Some(tail) => {
                        let start = expr_span(&**tail).start;
                        let rest = expr_low(&**tail, items.trivia.after_comments(start));
                        Lowered {
                            doc: doc.append(Doc::break_(","@, ", "@)).append(
                                commented_doc(
                                    Doc::text(".."@).append(rest.doc),
                                    items.trivia.comments_upto(start),
                                ),
                            ).nest(INDENT as nat).append(Doc::break_(""@, ""@)).append(
                                Doc::text("]"@),
                            ).group(),
                            trivia: rest.trivia,
                        }
                    },
                }
            }
        },
        _ => Lowered { doc: Doc::Nil, trivia: t },
    }
}

/// A call. A pipeline that is called stands in a block. A single argument
/// that can break by itself hugs the parentheses, unless a comment stands
/// before it.
pub open spec fn call_low(e: &UntypedExpr, t: Trivia) -> Lowered
    decreases e, 0int,
{
    match e {
        UntypedExpr::Call { fun, arguments, .. } => {
            let f = expr_low(&**fun, t);
            let head = if **fun is PipeLine {
                break_block_doc(f.doc)
            } else {
                f.doc
            };
            if arguments@.len() == 1 && expr_breakable(&arguments@[0].value)
                && !f.trivia.any_comments(arguments@[0].location.start) {
                let arg = call_arg_low(&arguments@[0], f.trivia);
                Lowered {
                    doc: head.append(Doc::text("("@)).append(arg.doc).append(
                        Doc::text(")"@),
                    ).group(),
                    trivia: arg.trivia,
                }
            } else {
                let args = call_args_low(arguments@, 0, arguments@.len() as int, f.trivia);
                Lowered {
                    doc: head.append(wrap_args_doc(args.docs).group()).group(),
                    trivia: args.trivia,
                }
            }
        },
        _ => Lowered { doc: Doc::Nil, trivia: t },
    }
}

/// One clause of a `case`. The blank lines before it count only for a clause
/// that is not the first.
pub open spec fn clause_low(clause: &Clause, first: bool, t: Trivia) -> Lowered
    decreases clause, 0int,
{
    let start = clause.location.start;
    let space_before = t.blank_upto(start);
    let t1 = t.after_empty_lines(start);
    let patterns = patterns_low(
        clause.pattern@,
        clause.pattern@.len() as int,
        t1.after_comments(start),
    );
    let alternatives = alternatives_low(
        clause.alternative_patterns@,
        clause.alternative_patterns@.len() as int,
        patterns.trivia,
    );
    let head = commented_doc(
        clause_head_doc(patterns.docs, alternatives.docs, clause.guard),
        t1.comments_upto(start),
    );
    let head = if first {
        head
    } else if space_before {
        Doc::lines(2).append(head)
    } else {
        Doc::lines(1).append(head)
    };
    let value = value_low(&clause.body, alternatives.trivia);
    Lowered { doc: head.append(Doc::text(" ->"@)).append(value.doc), trivia: value.trivia }
}

/// Lowers the first `n` clauses of a `case`, one after the other; each but
/// the first stands on a line of its own.
pub open spec fn clauses_low(clauses: Seq<Clause>, n: int, t: Trivia) -> LoweredAll
    decreases clauses, n,
{
    if n <= 0 || n > clauses.len() {
        LoweredAll { docs: Seq::empty(), trivia: t }
    } else {
        let before = clauses_low(clauses, n - 1, t);
        let next = clause_low(&clauses[n - 1], n == 1, before.trivia);
        LoweredAll { docs: before.docs.push(next.doc), trivia: next.trivia }
    }
}

/// The value of a clause after its arrow: on the same line where it starts
/// with a bracket of its own, on the next line where it is a `case`, after a
/// break that follows the clause otherwise.
pub open spec fn value_low(e: &UntypedExpr, t: Trivia) -> Lowered
    decreases e, 2int,
{
    match e {
        UntypedExpr::Fn { .. }
        | UntypedExpr::List { .. }
        | UntypedExpr::Tuple { .. }
        | UntypedExpr::BitArray { .. } => {
            let inner = expr_low(e, t);
            Lowered { doc: Doc::text(" "@).append(inner.doc).group(), trivia: inner.trivia }
        },
        UntypedExpr::Case { .. } => {
            let inner = expr_low(e, t);
            Lowered {
                doc: Doc::line().append(inner.doc).nest(INDENT as nat).group(),
                trivia: inner.trivia,
            }
        },
        UntypedExpr::Block { statements, .. } => {
            let inner = statements_low(statements@, t);
            Lowered {
                doc: Doc::text(" {"@).append(
                    Doc::line().append(inner.doc).nest(INDENT as nat),
                ).append(Doc::line()).append(Doc::text("}"@)).group(),
                trivia: inner.trivia,
            }
        },
        _ => {
            let inner = expr_low(e, t);
            Lowered {
                doc: Doc::break_(""@, " "@).append(inner.doc).nest(INDENT as nat).group(),
                trivia: inner.trivia,
            }
        },
    }
}

/// The value of an assignment after its `=`: a `case` on the same line,
/// anything else as the value of a clause.
pub open spec fn assigned_low(e: &UntypedExpr, t: Trivia) -> Lowered
    decreases e, 3int,
{
    if e is Case {
        let inner = expr_low(e, t);
        Lowered { doc: Doc::text(" "@).append(inner.doc).group(), trivia: inner.trivia }
    } else {
        value_low(e, t)
    }
}

/// The right-hand side of a pipe into a function capture. With the hole as
/// the first argument the hole is left out, and the parentheses too if it is
/// the only argument; with the hole elsewhere the call is printed in full.
pub open spec fn pipe_capture_low(e: &UntypedExpr, t: Trivia) -> Lowered
    decreases e, 0int,
{
    match e {
        UntypedExpr::Call { fun, arguments, .. } => {
            let hole_first = arguments@.len() > 0 && is_hole(&arguments@[0].value);
            let f = expr_low(&**fun, t);
            if hole_first && arguments@.len() == 1 {
                f
            } else {
                let args = call_args_low(
                    arguments@,
                    if hole_first {
                        1
                    } else {
                        0
                    },
                    arguments@.len() as int,
                    f.trivia,
                );
                Lowered {
                    doc: f.doc.append(wrap_args_doc(args.docs).group()),
                    trivia: args.trivia,
                }
            }
        },
        _ => Lowered { doc: Doc::Nil, trivia: t },
    }
}

/// The first `n` stages of a pipeline: the first expression, then for each
/// further one a line break, `|> ` under the comments before the stage, and
/// the stage.
pub open spec fn stages_upto(stages: Seq<UntypedExpr>, n: int, t: Trivia) -> LoweredAll
    decreases stages, n,
{
    if n <= 0 || n > stages.len() {
        LoweredAll { docs: Seq::empty(), trivia: t }
    } else if n == 1 {
        let first = expr_low(&stages[0], t);
        LoweredAll {
            docs: seq![operator_side_doc(first.doc, 5, expr_precedence(&stages[0]))],
            trivia: first.trivia,
        }
    } else {
        let before = stages_upto(stages, n - 1, t);
        let start = expr_span(&stages[n - 1]).start;
        let t1 = before.trivia.after_comments(start);
        let stage = match stages[n - 1] {
            UntypedExpr::Fn { is_capture: true, body, .. } => {
                if body@.len() > 0 {
                    match body@[0] {
                        Statement::Expression(inner) => pipe_capture_low(&inner, t1),
                        _ => Lowered { doc: Doc::Nil, trivia: t1 },
                    }
                } else {
                    Lowered { doc: Doc::Nil, trivia: t1 }
                }
            },
            _ => expr_low(&stages[n - 1], t1),
        };
        LoweredAll {
            docs: before.docs.push(Doc::line()).push(
                commented_doc(Doc::text("|> "@), before.trivia.comments_upto(start)),
            ).push(operator_side_doc(stage.doc, 4, expr_precedence(&stages[n - 1]))),
            trivia: stage.trivia,
        }
    }
}

/// A pipeline: one stage per line, always broken.
pub open spec fn pipeline_low(stages: Seq<UntypedExpr>, t: Trivia) -> Lowered
    decreases stages, stages.len() + 1,
{
    let all = stages_upto(stages, stages.len() as int, t);
    Lowered { doc: Doc::concat(all.docs).force_break(), trivia: all.trivia }
}

/// A function capture: the call of its body with the hole as `_`. A second
/// argument that can break by itself hugs the parentheses after the hole.
pub open spec fn fn_capture_low(body: Seq<Statement>, t: Trivia) -> Lowered
    decreases body, 0int,
{
    if body.len() == 1 {
        match body[0] {
            Statement::Expression(UntypedExpr::Call { fun, arguments, .. }) => {
                let f = expr_low(&*fun, t);
                if arguments@.len() == 2 && expr_breakable(&arguments@[1].value) && is_hole(
                    &arguments@[0].value,
                ) {
                    let second = call_arg_low(&arguments@[1], f.trivia);
                    Lowered {
                        doc: f.doc.append(Doc::text("(_, "@)).append(second.doc).append(
                            Doc::text(")"@),
                        ).group(),
                        trivia: second.trivia,
                    }
                } else {
                    let args = call_args_low(arguments@, 0, arguments@.len() as int, f.trivia);
                    Lowered {
                        doc: f.doc.append(wrap_args_doc(args.docs).group()),
                        trivia: args.trivia,
                    }
                }
            },
            _ => Lowered { doc: Doc::Nil, trivia: t },
        }
    } else {
        Lowered { doc: Doc::Nil, trivia: t }
    }
}

/// A negated boolean: a binary operation in braces after the `!`.
pub open spec fn negate_bool_low(e: &UntypedExpr, t: Trivia) -> Lowered
    decreases e, 2int,
{
    let inner = expr_low(e, t);
    Lowered {
        doc: if e is BinOp {
            Doc::text("!"@).append(wrap_block_doc(inner.doc))
        } else {
            Doc::text("!"@).append(inner.doc)
        },
        trivia: inner.trivia,
    }
}

/// A negated integer: a space after the `-` before a binary operation or
/// another negation.
pub open spec fn negate_int_low(e: &UntypedExpr, t: Trivia) -> Lowered
    decreases e, 2int,
{
    let inner = expr_low(e, t);
    Lowered {
        doc: if e is BinOp || e is NegateInt {
            Doc::text("- "@).append(inner.doc)
        } else {
            Doc::text("-"@).append(inner.doc)
        },
        trivia: inner.trivia,
    }
}

/// A binary operation: the left operand is lowered first, and an operand
/// that binds looser than its side asks stands in braces.
pub open spec fn operation_low(e: &UntypedExpr, t: Trivia) -> Lowered
    decreases e, 0int,
{
    match e {
        UntypedExpr::BinOp { name, left, right, .. } => {
            let l = expr_low(&**left, t);
            let r = expr_low(&**right, l.trivia);
            Lowered {
                doc: binary_doc(
                    name.spec_name()@,
                    name.spec_precedence(),
                    l.doc,
                    expr_precedence(&**left),
                    r.doc,
                    expr_precedence(&**right),
                ),
                trivia: r.trivia,
            }
        },
        _ => Lowered { doc: Doc::Nil, trivia: t },
    }
}

/// A `case`: the subjects are lowered before the clauses.
pub open spec fn case_expr_low(e: &UntypedExpr, t: Trivia) -> Lowered
    decreases e, 0int,
{
    match e {
        UntypedExpr::Case { subjects, clauses, .. } => {
            let subjects = exprs_low(subjects@, subjects@.len() as int, t);
            let clauses = clauses_low(clauses@, clauses@.len() as int, subjects.trivia);
            Lowered { doc: case_doc(subjects.docs, clauses.docs), trivia: clauses.trivia }
        },
        _ => Lowered { doc: Doc::Nil, trivia: t },
    }
}

/// A record update: the constructor, the spread under the comments before
/// its base, then the fields.
pub open spec fn update_low(e: &UntypedExpr, t: Trivia) -> Lowered
    decreases e, 0int,
{
    match e {
        UntypedExpr::RecordUpdate { constructor, spread, arguments, .. } => {
            let constructor = expr_low(&**constructor, t);
            let start = expr_span(&*spread.base).start;
            let base = expr_low(&*spread.base, constructor.trivia.after_comments(start));
            let args = record_update_args_low(arguments@, arguments@.len() as int, base.trivia);
            Lowered {
                doc: record_update_doc(
                    constructor.doc,
                    commented_doc(
                        Doc::text(".."@).append(base.doc),
                        constructor.trivia.comments_upto(start),
                    ),
                    args.docs,
                ),
                trivia: args.trivia,
            }
        },
        _ => Lowered { doc: Doc::Nil, trivia: t },
    }
}

/// The binary operation made of an operator and two operands.
pub open spec fn operation_of(
    name: crate::ast::BinOp,
    left: &UntypedExpr,
    right: &UntypedExpr,
) -> UntypedExpr {
    UntypedExpr::BinOp {
        location: SrcSpan { start: 0, end: 0 },
        name,
        left: Box::new(*left),
        right: Box::new(*right),
    }
}

/// The `case` made of subjects and clauses.
pub open spec fn case_of(subjects: &Vec<UntypedExpr>, clauses: &Vec<Clause>) -> UntypedExpr {
    UntypedExpr::Case {
        location: SrcSpan { start: 0, end: 0 },
        subjects: *subjects,
        clauses: *clauses,
    }
}

/// The record update made of a constructor, a spread and fields.
pub open spec fn update_of(
    constructor: &UntypedExpr,
    spread: &crate::ast::RecordUpdateSpread,
    args: &Vec<UntypedRecordUpdateArg>,
) -> UntypedExpr {
    UntypedExpr::RecordUpdate {
        location: SrcSpan { start: 0, end: 0 },
        constructor: Box::new(*constructor),
        spread: *spread,
        arguments: *args,
    }
}

/// A binary operation lowered from its parts.
pub open spec fn bin_op_low(
    name: crate::ast::BinOp,
    left: &UntypedExpr,
    right: &UntypedExpr,
    t: Trivia,
) -> Lowered {
    operation_low(&operation_of(name, left, right), t)
}

/// A `case` lowered from its subjects and clauses.
pub open spec fn case_low(subjects: &Vec<UntypedExpr>, clauses: &Vec<Clause>, t: Trivia) -> Lowered {
    case_expr_low(&case_of(subjects, clauses), t)
}

/// A record update lowered from its constructor, spread and fields.
pub open spec fn record_update_low(
    constructor: &UntypedExpr,
    spread: &crate::ast::RecordUpdateSpread,
    args: &Vec<UntypedRecordUpdateArg>,
    t: Trivia,
) -> Lowered {
    update_low(&update_of(constructor, spread, args), t)
}

/// An expression under the comments that stand before it.
pub open spec fn expr_low(e: &UntypedExpr, t: Trivia) -> Lowered
    decreases e, 1int,
{
    let comments = t.comments_upto(expr_start(e));
    let t = t.after_comments(expr_start(e));
    let inner = match e {
        UntypedExpr::Placeholder { .. } => Lowered { doc: Doc::Nil, trivia: t },
        UntypedExpr::Panic { message, .. } => Lowered {
            doc: match message {
                Some(m) => Doc::text("panic as \""@).append(Doc::text(m@)).append(
                    Doc::text("\""@),
                ),
                None => Doc::text("panic"@),
            },
            trivia: t,
        },
        UntypedExpr::Todo { message, .. } => Lowered {
            doc: match message {
                Some(m) => Doc::text("todo as \""@).append(Doc::text(m@)).append(Doc::text("\""@)),
                None => Doc::text("todo"@),
            },
            trivia: t,
        },
        UntypedExpr::PipeLine { expressions } => pipeline_low(expressions@, t),
        UntypedExpr::Int { value, .. } => Lowered { doc: int_doc(value@), trivia: t },
        UntypedExpr::Float { value, .. } => Lowered { doc: float_doc(value@), trivia: t },
        UntypedExpr::String { value, .. } => Lowered { doc: string_doc(value@), trivia: t },
        UntypedExpr::Block { statements, .. } => {
            let inner = statements_low(statements@, t);
            Lowered {
                doc: Doc::text("{"@).append(
                    Doc::break_(""@, " "@).append(inner.doc).nest(INDENT as nat),
                ).append(Doc::break_(""@, " "@)).append(Doc::text("}"@)).group(),
                trivia: inner.trivia,
            }
        },
        UntypedExpr::Var { name, .. } => Lowered {
            doc: if name@ == CAPTURE_VARIABLE@ {
                Doc::text("_"@)
            } else {
                Doc::text(name@)
            },
            trivia: t,
        },
        UntypedExpr::TupleIndex { tuple, index, .. } => {
            let inner = expr_low(&**tuple, t);
            let head = if **tuple is TupleIndex {
                inner.doc.surround("{"@, "}"@)
            } else {
                inner.doc
            };
            Lowered {
                doc: head.append(Doc::text("."@)).append(Doc::text(decimal(*index as nat))),
                trivia: inner.trivia,
            }
        },
        UntypedExpr::NegateInt { value, .. } => negate_int_low(&**value, t),
        UntypedExpr::NegateBool { value, .. } => negate_bool_low(&**value, t),
        UntypedExpr::Fn { is_capture, body, .. } => if *is_capture {
            fn_capture_low(body@, t)
        } else {
            expr_fn_low(e, t)
        },
        UntypedExpr::List { .. } => list_low(e, t),
        UntypedExpr::Call { .. } => call_low(e, t),
        UntypedExpr::BinOp { .. } => operation_low(e, t),
        UntypedExpr::Case { .. } => case_expr_low(e, t),
        UntypedExpr::FieldAccess { label, container, .. } => {
            let inner = expr_low(&**container, t);
            let head = if **container is TupleIndex {
                inner.doc.surround("{ "@, " }"@)
            } else {
                inner.doc
            };
            Lowered {
                doc: head.append(Doc::text("."@)).append(Doc::text(label@)),
                trivia: inner.trivia,
            }
        },
        UntypedExpr::Tuple { elems, .. } => {
            let items = exprs_low(elems@, elems@.len() as int, t);
            Lowered {
                doc: Doc::text("#"@).append(wrap_args_doc(items.docs)).group(),
                trivia: items.trivia,
            }
        },
        UntypedExpr::BitArray { segments, .. } => {
            let items = expr_segments_low(segments@, segments@.len() as int, t);
            Lowered {
                doc: bit_array_doc(
                    items.docs,
                    expr_segments_simple(segments@, segments@.len() as int),
                ),
                trivia: items.trivia,
            }
        },
        UntypedExpr::RecordUpdate { .. } => update_low(e, t),
    };
    Lowered { doc: commented_doc(inner.doc, comments), trivia: inner.trivia }
}

impl UntypedExpr {
    /// The span the expression was parsed from.
    pub fn location(&self) -> (r: SrcSpan)
        ensures
            r == expr_span(self),
        decreases self,
    {
        match self {
            UntypedExpr::PipeLine { expressions } => if expressions.len() > 0 {
                expressions[expressions.len() - 1].location()
            } else {
                SrcSpan { start: 0, end: 0 }
            },
            UntypedExpr::Int { location, .. }
            | UntypedExpr::Float { location, .. }
            | UntypedExpr::String { location, .. }
            | UntypedExpr::Block { location, .. }
            | UntypedExpr::Var { location, .. }
            | UntypedExpr::Fn { location, .. }
            | UntypedExpr::List { location, .. }
            | UntypedExpr::Call { location, .. }
            | UntypedExpr::BinOp { location, .. }
            | UntypedExpr::Case { location, .. }
            | UntypedExpr::FieldAccess { location, .. }
            | UntypedExpr::Tuple { location, .. }
            | UntypedExpr::TupleIndex { location, .. }
            | UntypedExpr::Todo { location, .. }
            | UntypedExpr::Panic { location, .. }
            | UntypedExpr::BitArray { location, .. }
            | UntypedExpr::RecordUpdate { location, .. }
            | UntypedExpr::NegateBool { location, .. }
            | UntypedExpr::NegateInt { location, .. }
            | UntypedExpr::Placeholder { location } => *location,
        }
    }

    /// The offset at which the expression starts.
    pub fn start_byte_index(&self) -> (r: u32)
        ensures
            r == expr_start(self),
        decreases self,
    {
        match self {
            UntypedExpr::PipeLine { expressions } => if expressions.len() > 0 {
                expressions[0].start_byte_index()
            } else {
                0
            },
            _ => self.location().start,
        }
    }

    /// How tightly the expression binds as an operand.
    pub fn binop_precedence(&self) -> (r: u8)
        ensures
            r == expr_precedence(self),
            r >= 1,
    {
        match self {
            UntypedExpr::BinOp { name, .. } => name.precedence(),
            UntypedExpr::PipeLine { .. } => 5,
            _ => u8::MAX,
        }
    }

    /// Whether the expression is simple: see [`expr_simple`].
    pub fn is_simple_constant(&self) -> (r: bool)
        ensures
            r == expr_simple(self),
        decreases self,
    {
        match self {
            UntypedExpr::Int { .. }
            | UntypedExpr::Float { .. }
            | UntypedExpr::String { .. }
            | UntypedExpr::Var { .. } => true,
            UntypedExpr::Tuple { elems, .. } => all_simple(elems),
            UntypedExpr::List { elements, tail, .. } => tail.is_none() && all_simple(elements),
            _ => false,
        }
    }

    /// Whether the expression is a call.
    pub fn is_call(&self) -> (r: bool)
        ensures
            r == (self is Call),
    {
        match self {
            UntypedExpr::Call { .. } => true,
            _ => false,
        }
    }

    /// Whether the expression is a placeholder.
    pub fn is_placeholder(&self) -> (r: bool)
        ensures
            r == (self is Placeholder),
    {
        match self {
            UntypedExpr::Placeholder { .. } => true,
            _ => false,
        }
    }

    /// Whether the expression is a binary operation.
    pub fn is_binop(&self) -> (r: bool)
        ensures
            r == (self is BinOp),
    {
        match self {
            UntypedExpr::BinOp { .. } => true,
            _ => false,
        }
    }

    /// Whether the expression is an index into a tuple.
    pub fn is_tuple_index(&self) -> (r: bool)
        ensures
            r == (self is TupleIndex),
    {
        match self {
            UntypedExpr::TupleIndex { .. } => true,
            _ => false,
        }
    }

    /// Whether the expression is a pipeline.
    pub fn is_pipeline(&self) -> (r: bool)
        ensures
            r == (self is PipeLine),
    {
        match self {
            UntypedExpr::PipeLine { .. } => true,
            _ => false,
        }
    }

    /// Whether the expression is the hole of a function capture.
    pub fn is_capture_hole(&self) -> (r: bool)
        ensures
            r == is_hole(self),
    {
        match self {
            UntypedExpr::Var { name, .. } => is_capture_name(name),
            _ => false,
        }
    }
}

impl Statement {
    /// The span the statement was parsed from.
    pub fn location(&self) -> (r: SrcSpan)
        ensures
            r == statement_span(self),
    {
        match self {
            Statement::Expression(e) => e.location(),
            Statement::Assignment(a) => a.location,
            Statement::Use(u) => u.location,
        }
    }

    /// Whether the statement is a bare expression.
    pub fn is_expression(&self) -> (r: bool)
        ensures
            r == (self is Expression),
    {
        match self {
            Statement::Expression(_) => true,
            _ => false,
        }
    }
}

/// Whether `name` is the name of the capture hole.
pub fn is_capture_name(name: &String) -> (r: bool)
    ensures
        r == (name@ == CAPTURE_VARIABLE@),
{
    let hole = String::from_str(CAPTURE_VARIABLE);
    *name == hole
}

/// Where the first `m` expressions are simple, so are the first `n` of them.
proof fn exprs_simple_prefix(elements: Seq<UntypedExpr>, n: int, m: int)
    requires
        0 <= n <= m <= elements.len(),
        exprs_simple(elements, m),
    ensures
        exprs_simple(elements, n),
    decreases m - n,
{
    if n < m {
        exprs_simple_prefix(elements, n, m - 1);
    }
}

/// Where the first `m` segments are simple, so are the first `n` of them.
proof fn expr_segments_simple_prefix(segments: Seq<BitArraySegment<UntypedExpr>>, n: int, m: int)
    requires
        0 <= n <= m <= segments.len(),
        expr_segments_simple(segments, m),
    ensures
        expr_segments_simple(segments, n),
    decreases m - n,
{
    if n < m {
        expr_segments_simple_prefix(segments, n, m - 1);
    }
}

/// Whether every expression of `elements` is simple.
pub fn all_simple(elements: &Vec<UntypedExpr>) -> (r: bool)
    ensures
        r == exprs_simple(elements@, elements@.len() as int),
    decreases elements,
{
    let mut i: usize = 0;
    while i < elements.len()
        invariant
            i <= elements@.len(),
            exprs_simple(elements@, i as int),
        decreases elements@.len() - i,
    {
        if !elements[i].is_simple_constant() {
            proof {
                if exprs_simple(elements@, elements@.len() as int) {
                    exprs_simple_prefix(elements@, i + 1, elements@.len() as int);
                }
            }
            return false;
        }
        i += 1;
    }
    true
}

/// Whether the values of the segments are all simple.
fn segments_simple(segments: &Vec<BitArraySegment<UntypedExpr>>) -> (r: bool)
    ensures
        r == expr_segments_simple(segments@, segments@.len() as int),
{
    let mut i: usize = 0;
    while i < segments.len()
        invariant
            i <= segments@.len(),
            expr_segments_simple(segments@, i as int),
        decreases segments@.len() - i,
    {
        if !segments[i].value.is_simple_constant() {
            proof {
                if expr_segments_simple(segments@, segments@.len() as int) {
                    expr_segments_simple_prefix(segments@, i + 1, segments@.len() as int);
                }
            }
            return false;
        }
        i += 1;
    }
    true
}

/// Whether an expression, as the only argument of a call, may hug the
/// parentheses.
pub fn is_breakable_expr(expr: &UntypedExpr) -> (r: bool)
    ensures
        r == expr_breakable(expr),
{
    match expr {
        UntypedExpr::Fn { .. }
        | UntypedExpr::Block { .. }
        | UntypedExpr::Call { .. }
        | UntypedExpr::Case { .. }
        | UntypedExpr::List { .. }
        | UntypedExpr::Tuple { .. }
        | UntypedExpr::BitArray { .. } => true,
        _ => false,
    }
}

/// The names of a parameter.
pub fn arg_names<'a>(names: &'a ArgNames) -> (r: Document<'a>)
    ensures
        r@ == names_doc(names),
{
    match names {
        ArgNames::Named { name } | ArgNames::Discard { name } => text(name.as_str()),
        ArgNames::LabelledDiscard { label, name } | ArgNames::NamedLabelled { label, name } => {
            text(label.as_str()).append(text(" ")).append(text(name.as_str()))
        },
    }
}

/// The left side of a `use` from its lowered patterns.
fn use_left<'a>(assignments: Vec<Document<'a>>) -> (r: Document<'a>)
    ensures
        r@ == use_left_doc(docs_of(assignments@)),
{
    let ghost patterns = docs_of(assignments@);
    let mut left: Vec<Document<'a>> = Vec::new();
    push_doc(&mut left, text("use"));
    push_doc(&mut left, break_("", " "));
    crate::trivia::append_docs(&mut left, intersperse(assignments, break_(",", ", ")));
    assert(docs_of(left@) =~= seq![Doc::text("use"@), Doc::break_(""@, " "@)] + interspersed(
        patterns,
        Doc::break_(","@, ", "@),
    ));
    concat(left).nest(INDENT).append(break_("", " ")).group()
}

/// The document of a `case` from its lowered subjects and clauses.
fn case_document<'a>(subjects: Vec<Document<'a>>, clauses: Vec<Document<'a>>) -> (r: Document<'a>)
    ensures
        r@ == case_doc(docs_of(subjects@), docs_of(clauses@)),
{
    break_("case", "case ").append(join(subjects, break_(",", ", "))).nest(INDENT).append(
        break_("", " "),
    ).append(text("{")).group().append(line().append(concat(clauses)).nest(INDENT)).append(
        line(),
    ).append(text("}")).force_break()
}

/// The document of a record update from its lowered parts.
fn record_update_document<'a>(
    constructor: Document<'a>,
    spread: Document<'a>,
    args: Vec<Document<'a>>,
) -> (r: Document<'a>)
    ensures
        r@ == record_update_doc(constructor@, spread@, docs_of(args@)),
{
    let mut all: Vec<Document<'a>> = Vec::new();
    push_doc(&mut all, spread);
    crate::trivia::append_docs(&mut all, args);
    assert(docs_of(all@) =~= seq![spread@] + docs_of(args@));
    constructor.append(wrap_args(all)).group()
}

impl<'c> Formatter<'c> {
    /// Lowers a parameter, with the comments before it.
    pub fn fn_arg<'a>(&mut self, arg: &'a Arg) -> (r: Document<'a>)
        ensures
            r@ == fn_arg_low(arg, old(self)@).doc,
            final(self)@ == fn_arg_low(arg, old(self)@).trivia,
    {
        let comments = self.pop_comments(arg.location.start);
        let doc = match &arg.annotation {
            None => arg_names(&arg.names),
            Some(annotation) => arg_names(&arg.names).append(text(": ")).append(
                type_ast(annotation),
            ),
        }.group();
        commented(doc, &comments)
    }

    /// Lowers each parameter in turn.
    pub fn fn_args<'a>(&mut self, args: &'a Vec<Arg>) -> (r: Vec<Document<'a>>)
        ensures
            docs_of(r@) == fn_args_low(args@, args@.len() as int, old(self)@).docs,
            final(self)@ == fn_args_low(args@, args@.len() as int, old(self)@).trivia,
    {
        let ghost start = self@;
        let mut docs: Vec<Document<'a>> = Vec::new();
        let mut i: usize = 0;
        assert(docs_of(docs@) =~= fn_args_low(args@, 0, start).docs);
        while i < args.len()
            invariant
                i <= args@.len(),
                docs_of(docs@) == fn_args_low(args@, i as int, start).docs,
                self@ == fn_args_low(args@, i as int, start).trivia,
            decreases args@.len() - i,
        {
            let doc = self.fn_arg(&args[i]);
            push_doc(&mut docs, doc);
            i += 1;
        }
        docs
    }

    /// The patterns of a `use`, each with its annotation.
    fn use_assignments<'a>(&mut self, assignments: &'a Vec<UseAssignment>) -> (r: Vec<Document<'a>>)
        ensures
            docs_of(r@) == use_assignments_low(
                assignments@,
                assignments@.len() as int,
                old(self)@,
            ).docs,
            final(self)@ == use_assignments_low(
                assignments@,
                assignments@.len() as int,
                old(self)@,
            ).trivia,
    {
        let ghost start = self@;
        let mut docs: Vec<Document<'a>> = Vec::new();
        let mut i: usize = 0;
        assert(docs_of(docs@) =~= use_assignments_low(assignments@, 0, start).docs);
        while i < assignments.len()
            invariant
                i <= assignments@.len(),
                docs_of(docs@) == use_assignments_low(assignments@, i as int, start).docs,
                self@ == use_assignments_low(assignments@, i as int, start).trivia,
            decreases assignments@.len() - i,
        {
            let pattern = self.pattern(&assignments[i].pattern);
            let annotation = match &assignments[i].annotation {
                Some(annotation) => text(": ").append(type_ast(annotation)),
                None => nil(),
            };
            push_doc(&mut docs, pattern.append(annotation).group());
            i += 1;
        }
        docs
    }

    /// The alternative patterns of a clause, each a list of patterns.
    fn alternatives<'a>(&mut self, alternatives: &'a Vec<Vec<crate::ast::Pattern>>) -> (r: Vec<
        Document<'a>,
    >)
        ensures
            docs_of(r@) == alternatives_low(
                alternatives@,
                alternatives@.len() as int,
                old(self)@,
            ).docs,
            final(self)@ == alternatives_low(
                alternatives@,
                alternatives@.len() as int,
                old(self)@,
            ).trivia,
    {
        let ghost start = self@;
        let mut docs: Vec<Document<'a>> = Vec::new();
        let mut i: usize = 0;
        assert(docs_of(docs@) =~= alternatives_low(alternatives@, 0, start).docs);
        while i < alternatives.len()
            invariant
                i <= alternatives@.len(),
                docs_of(docs@) == alternatives_low(alternatives@, i as int, start).docs,
                self@ == alternatives_low(alternatives@, i as int, start).trivia,
            decreases alternatives@.len() - i,
        {
            let patterns = self.patterns(&alternatives[i]);
            push_doc(&mut docs, join(patterns, text(", ")));
            i += 1;
        }
        docs
    }

    /// Lowers an expression, with the comments before it.
    pub fn expr<'a>(&mut self, expr: &'a UntypedExpr) -> (r: Document<'a>)
        requires
            expr_ok(expr),
        ensures
            r@ == expr_low(expr, old(self)@).doc,
            final(self)@ == expr_low(expr, old(self)@).trivia,
        decreases expr, 1int,
    {
        let comments = self.pop_comments(expr.start_byte_index());
        let document = match expr {
            UntypedExpr::Placeholder { .. } => nil(),
            UntypedExpr::Panic { message, .. } => match message {
                Some(m) => text("panic as \"").append(text(m.as_str())).append(text("\"")),
                None => text("panic"),
            },
            UntypedExpr::Todo { message, .. } => match message {
                Some(m) => text("todo as \"").append(text(m.as_str())).append(text("\"")),
                None => text("todo"),
            },
            UntypedExpr::PipeLine { expressions } => self.pipeline(expressions),
            UntypedExpr::Int { value, .. } => int_(value.as_str()),
            UntypedExpr::Float { value, .. } => float(value.as_str()),
            UntypedExpr::String { value, .. } => string(value.as_str()),
            UntypedExpr::Block { statements, .. } => self.block(statements),
            UntypedExpr::Var { name, .. } => if is_capture_name(name) {
                text("_")
            } else {
                text(name.as_str())
            },
            UntypedExpr::TupleIndex { tuple, index, .. } => self.tuple_index(tuple, *index),
            UntypedExpr::NegateInt { value, .. } => self.negate_int(value),
            UntypedExpr::NegateBool { value, .. } => self.negate_bool(value),
            UntypedExpr::Fn { is_capture, body, .. } => if *is_capture {
                self.fn_capture(body)
            } else {
                self.expr_fn(expr)
            },
            UntypedExpr::List { .. } => self.list(expr),
            UntypedExpr::Call { .. } => self.call(expr),
            UntypedExpr::BinOp { name, left, right, .. } => self.operation(
                Ghost(expr),
                name,
                left,
                right,
            ),
            UntypedExpr::Case { subjects, clauses, .. } => self.case_expr(
                Ghost(expr),
                subjects,
                clauses,
            ),
            UntypedExpr::FieldAccess { label, container, .. } => {
                let inner = self.expr(container);
                if container.is_tuple_index() {
                    inner.surround("{ ", " }")
                } else {
                    inner
                }.append(text(".")).append(text(label.as_str()))
            },
            UntypedExpr::Tuple { elems, .. } => text("#").append(
                wrap_args(self.exprs(elems)),
            ).group(),
            UntypedExpr::BitArray { segments, .. } => {
                let docs = self.expr_segments(segments);
                bit_array(docs, segments_simple(segments))
            },
            UntypedExpr::RecordUpdate { constructor, spread, arguments, .. } => self.update(
                Ghost(expr),
                constructor,
                spread,
                arguments,
            ),
        };
        commented(document, &comments)
    }

    /// Lowers each of `exprs` in turn.
    pub fn exprs<'a>(&mut self, exprs: &'a Vec<UntypedExpr>) -> (r: Vec<Document<'a>>)
        requires
            forall|i: int| 0 <= i < exprs@.len() ==> expr_ok(&#[trigger] exprs@[i]),
        ensures
            docs_of(r@) == exprs_low(exprs@, exprs@.len() as int, old(self)@).docs,
            final(self)@ == exprs_low(exprs@, exprs@.len() as int, old(self)@).trivia,
        decreases exprs, 0int,
    {
        let ghost start = self@;
        let mut docs: Vec<Document<'a>> = Vec::new();
        let mut i: usize = 0;
        assert(docs_of(docs@) =~= exprs_low(exprs@, 0, start).docs);
        while i < exprs.len()
            invariant
                i <= exprs@.len(),
                forall|i: int| 0 <= i < exprs@.len() ==> expr_ok(&#[trigger] exprs@[i]),
                docs_of(docs@) == exprs_low(exprs@, i as int, start).docs,
                self@ == exprs_low(exprs@, i as int, start).trivia,
            decreases exprs@.len() - i,
        {
            let doc = self.expr(&exprs[i]);
            push_doc(&mut docs, doc);
            i += 1;
        }
        docs
    }

    /// An index into a tuple.
    fn tuple_index<'a>(&mut self, tuple: &'a UntypedExpr, index: u64) -> (r: Document<'a>)
        requires
            expr_ok(tuple),
        ensures
            r@ == (if tuple is TupleIndex {
                expr_low(tuple, old(self)@).doc.surround("{"@, "}"@)
            } else {
                expr_low(tuple, old(self)@).doc
            }).append(Doc::text("."@)).append(Doc::text(decimal(index as nat))),
            final(self)@ == expr_low(tuple, old(self)@).trivia,
        decreases tuple, 2int,
    {
        let inner = self.expr(tuple);
        if tuple.is_tuple_index() {
            inner.surround("{", "}")
        } else {
            inner
        }.append(text(".")).append(number(index))
    }

    /// A block: its statements in braces.
    fn block<'a>(&mut self, statements: &'a Vec<Statement>) -> (r: Document<'a>)
        requires
            statements_ok(statements@),
        ensures
            r@ == Doc::text("{"@).append(
                Doc::break_(""@, " "@).append(statements_low(statements@, old(self)@).doc).nest(
                    INDENT as nat,
                ),
            ).append(Doc::break_(""@, " "@)).append(Doc::text("}"@)).group(),
            final(self)@ == statements_low(statements@, old(self)@).trivia,
        decreases statements, 1int,
    {
        let inner = self.statements(statements);
        text("{").append(break_("", " ").append(inner).nest(INDENT)).append(
            break_("", " "),
        ).append(text("}")).group()
    }

    /// Lowers a list of statements.
    pub fn statements<'a>(&mut self, statements: &'a Vec<Statement>) -> (r: Document<'a>)
        requires
            statements_ok(statements@),
        ensures
            r@ == statements_low(statements@, old(self)@).doc,
            final(self)@ == statements_low(statements@, old(self)@).trivia,
        decreases statements, 0int,
    {
        let ghost start = self@;
        let count = statements.len();
        let mut previous_position: u32 = 0;
        let mut docs: Vec<Document<'a>> = Vec::new();
        let mut i: usize = 0;
        assert(docs_of(docs@) =~= statements_upto(statements@, 0, start).docs);
        while i < count
            invariant
                i <= count,
                count == statements@.len(),
                statements_ok(statements@),
                previous_position == (if i == 0 {
                    0
                } else {
                    statement_span(&statements@[i - 1]).end
                }),
                docs_of(docs@) == statements_upto(statements@, i as int, start).docs,
                self@ == statements_upto(statements@, i as int, start).trivia,
            decreases count - i,
        {
            let statement = &statements[i];
            let limit = if previous_position == u32::MAX {
                previous_position
            } else {
                previous_position + 1
            };
            let preceding_newline = self.pop_empty_lines(limit);
            if i != 0 && preceding_newline {
                push_doc(&mut docs, lines(2));
            } else if i != 0 {
                push_doc(&mut docs, lines(1));
            }
            previous_position = statement.location().end;
            let doc = self.statement(statement).group();
            push_doc(&mut docs, doc);
            i += 1;
        }
        if count == 1 && statements[0].is_expression() {
            concat(docs)
        } else {
            concat(docs).force_break()
        }
    }

    /// Lowers a statement.
    pub fn statement<'a>(&mut self, statement: &'a Statement) -> (r: Document<'a>)
        requires
            statement_ok(statement),
        ensures
            r@ == statement_low(statement, old(self)@).doc,
            final(self)@ == statement_low(statement, old(self)@).trivia,
        decreases statement, 0int,
    {
        match statement {
            Statement::Expression(expression) => self.expr(expression),
            Statement::Assignment(assignment) => self.assignment(assignment),
            Statement::Use(use_) => self.use_(use_),
        }
    }

    /// A `let` or `let assert`.
    fn assignment<'a>(&mut self, assignment: &'a Assignment) -> (r: Document<'a>)
        requires
            expr_ok(&*assignment.value),
        ensures
            r@ == assignment_low(assignment, old(self)@).doc,
            final(self)@ == assignment_low(assignment, old(self)@).trivia,
        decreases assignment, 0int,
    {
        let comments = self.pop_comments(assignment.location.start);
        let _ = self.pop_empty_lines(assignment.pattern.location().end);
        let keyword = match assignment.kind {
            AssignmentKind::Let => "let ",
            AssignmentKind::Assert => "let assert ",
        };
        let pattern = self.pattern(&assignment.pattern);
        let annotation = match &assignment.annotation {
            Some(annotation) => text(": ").append(type_ast(annotation)),
            None => nil(),
        };
        let doc = text(keyword).append(pattern.append(annotation).group()).append(
            text(" ="),
        ).append(self.assigned_value(&assignment.value));
        commented(doc, &comments)
    }

    /// A `use`: its patterns, the arrow and the call.
    fn use_<'a>(&mut self, use_: &'a Use) -> (r: Document<'a>)
        requires
            expr_ok(&*use_.call),
        ensures
            r@ == use_low(use_, old(self)@).doc,
            final(self)@ == use_low(use_, old(self)@).trivia,
        decreases use_, 0int,
    {
        let comments = self.pop_comments(use_.location.start);
        let call = self.expr(&use_.call);
        let call = if use_.call.is_call() {
            text(" ").append(call)
        } else {
            break_("", " ").append(call).nest(INDENT)
        }.group();
        let doc = if use_.assignments.len() == 0 {
            text("use <-").append(call)
        } else {
            let assignments = self.use_assignments(&use_.assignments);
            use_left(assignments).append(text("<-")).append(call).group()
        };
        commented(doc, &comments)
    }

    /// An anonymous function.
    fn expr_fn<'a>(&mut self, expr: &'a UntypedExpr) -> (r: Document<'a>)
        requires
            expr matches UntypedExpr::Fn { body, .. } ==> statements_ok(body@),
        ensures
            r@ == expr_fn_low(expr, old(self)@).doc,
            final(self)@ == expr_fn_low(expr, old(self)@).trivia,
        decreases expr, 0int,
    {
        match expr {
            UntypedExpr::Fn { arguments, body, return_annotation, .. } => {
                let args = wrap_args(self.fn_args(arguments)).group();
                let body = self.statements(body);
                let header = text("fn").append(args);
                let header = match return_annotation {
                    None => header,
                    Some(annotation) => header.append(text(" -> ")).append(type_ast(annotation)),
                };
                header.append(text(" ")).append(wrap_block(body)).group()
            },
            _ => nil(),
        }
    }

    /// A list, with its tail where it has one.
    fn list<'a>(&mut self, expr: &'a UntypedExpr) -> (r: Document<'a>)
        requires
            expr_ok(expr),
        ensures
            r@ == list_low(expr, old(self)@).doc,
            final(self)@ == list_low(expr, old(self)@).trivia,
        decreases expr, 0int,
    {
        match expr {
            UntypedExpr::List { elements, tail, .. } => {
                if elements.len() == 0 {
                    return match tail {
                        Some(tail) => self.expr(tail),
                        None => text("[]"),
                    };
                }
                let separator = comma(tail.is_none() && all_simple(elements));
                let items = join(self.exprs(elements), separator);
                let doc = break_("[", "[").append(items);
                match tail {
                    None => doc.nest(INDENT).append(break_(",", "")),
                    Some(tail) => {
                        let comments = self.pop_comments(tail.location().start);
                        let rest = commented(text("..").append(self.expr(tail)), &comments);
                        doc.append(break_(",", ", ")).append(rest).nest(INDENT).append(
                            break_("", ""),
                        )
                    },
                }.append(text("]")).group()
            },
            _ => nil(),
        }
    }

    /// A call: the function and its arguments.
    fn call<'a>(&mut self, expr: &'a UntypedExpr) -> (r: Document<'a>)
        requires
            expr_ok(expr),
        ensures
            r@ == call_low(expr, old(self)@).doc,
            final(self)@ == call_low(expr, old(self)@).trivia,
        decreases expr, 0int,
    {
        match expr {
            UntypedExpr::Call { fun, arguments, .. } => {
                let head = self.expr(fun);
                let head = if fun.is_pipeline() {
                    break_block(head)
                } else {
                    head
                };
                if arguments.len() == 1 && is_breakable_expr(&arguments[0].value)
                    && !self.any_comments(arguments[0].location.start) {
                    assert(call_args_ok(arguments@));
                    assert(expr_ok(&arguments@[0].value));
                    head.append(text("(")).append(self.call_arg(&arguments[0])).append(
                        text(")"),
                    ).group()
                } else {
                    head.append(wrap_args(self.call_args(arguments, 0)).group()).group()
                }
            },
            _ => nil(),
        }
    }

    /// One argument of a call, behind its label where it has one.
    fn call_arg<'a>(&mut self, arg: &'a CallArg<UntypedExpr>) -> (r: Document<'a>)
        requires
            expr_ok(&arg.value),
        ensures
            r@ == call_arg_low(arg, old(self)@).doc,
            final(self)@ == call_arg_low(arg, old(self)@).trivia,
        decreases arg, 0int,
    {
        let label = match &arg.label {
            Some(label) => {
                let comments = self.pop_comments(arg.location.start);
                commented(text(label.as_str()).append(text(": ")), &comments)
            },
            None => nil(),
        };
        label.append(self.expr(&arg.value))
    }

    /// The arguments of a call from the one at `from` on.
    fn call_args<'a>(&mut self, args: &'a Vec<CallArg<UntypedExpr>>, from: usize) -> (r: Vec<
        Document<'a>,
    >)
        requires
            call_args_ok(args@),
        ensures
            docs_of(r@) == call_args_low(args@, from as int, args@.len() as int, old(self)@).docs,
            final(self)@ == call_args_low(
                args@,
                from as int,
                args@.len() as int,
                old(self)@,
            ).trivia,
        decreases args, 0int,
    {
        let ghost start = self@;
        let mut docs: Vec<Document<'a>> = Vec::new();
        let mut i: usize = from;
        assert(docs_of(docs@) =~= call_args_low(args@, from as int, from as int, start).docs);
        if from >= args.len() {
            return docs;
        }
        while i < args.len()
            invariant
                from <= i <= args@.len(),
                forall|k: int| 0 <= k < args@.len() ==> expr_ok(&(#[trigger] args@[k]).value),
                docs_of(docs@) == call_args_low(args@, from as int, i as int, start).docs,
                self@ == call_args_low(args@, from as int, i as int, start).trivia,
            decreases args@.len() - i,
        {
            let doc = self.call_arg(&args[i]);
            push_doc(&mut docs, doc);
            i += 1;
        }
        docs
    }

    /// One field of a record update.
    fn record_update_arg<'a>(&mut self, arg: &'a UntypedRecordUpdateArg) -> (r: Document<'a>)
        requires
            expr_ok(&arg.value),
        ensures
            r@ == record_update_arg_low(arg, old(self)@).doc,
            final(self)@ == record_update_arg_low(arg, old(self)@).trivia,
        decreases arg, 0int,
    {
        let comments = self.pop_comments(arg.location.start);
        let doc = text(arg.label.as_str()).append(text(": ")).append(self.expr(&arg.value));
        commented(doc, &comments)
    }

    /// The fields of a record update.
    fn record_update_args<'a>(&mut self, args: &'a Vec<UntypedRecordUpdateArg>) -> (r: Vec<
        Document<'a>,
    >)
        requires
            forall|i: int| 0 <= i < args@.len() ==> expr_ok(&(#[trigger] args@[i]).value),
        ensures
            docs_of(r@) == record_update_args_low(args@, args@.len() as int, old(self)@).docs,
            final(self)@ == record_update_args_low(args@, args@.len() as int, old(self)@).trivia,
        decreases args, 0int,
    {
        let ghost start = self@;
        let mut docs: Vec<Document<'a>> = Vec::new();
        let mut i: usize = 0;
        assert(docs_of(docs@) =~= record_update_args_low(args@, 0, start).docs);
        while i < args.len()
            invariant
                i <= args@.len(),
                forall|i: int| 0 <= i < args@.len() ==> expr_ok(&(#[trigger] args@[i]).value),
                docs_of(docs@) == record_update_args_low(args@, i as int, start).docs,
                self@ == record_update_args_low(args@, i as int, start).trivia,
            decreases args@.len() - i,
        {
            let doc = self.record_update_arg(&args[i]);
            push_doc(&mut docs, doc);
            i += 1;
        }
        docs
    }

    /// The value of a segment: in braces where it is an operation.
    fn bit_array_segment_expr<'a>(&mut self, expr: &'a UntypedExpr) -> (r: Document<'a>)
        requires
            expr_ok(expr),
        ensures
            r@ == segment_expr_low(expr, old(self)@).doc,
            final(self)@ == segment_expr_low(expr, old(self)@).trivia,
        decreases expr, 2int,
    {
        let inner = self.expr(expr);
        if expr.is_binop() {
            wrap_block(inner)
        } else {
            inner
        }
    }

    /// One segment of a bit array: its value and its options.
    fn expr_segment<'a>(&mut self, segment: &'a BitArraySegment<UntypedExpr>) -> (r: Document<'a>)
        requires
            segment_ok(segment),
        ensures
            r@ == expr_segment_low(segment, old(self)@).doc,
            final(self)@ == expr_segment_low(segment, old(self)@).trivia,
        decreases segment, 0int,
    {
        let value = self.bit_array_segment_expr(&segment.value);
        if segment.options.len() == 0 {
            return value;
        }
        let ghost start = self@;
        let options = &segment.options;
        let mut docs: Vec<Document<'a>> = Vec::new();
        let mut i: usize = 0;
        assert(docs_of(docs@) =~= expr_options_low(options@, 0, start).docs);
        while i < options.len()
            invariant
                i <= options@.len(),
                options == &segment.options,
                segment_ok(segment),
                docs_of(docs@) == expr_options_low(options@, i as int, start).docs,
                self@ == expr_options_low(options@, i as int, start).trivia,
            decreases options@.len() - i,
        {
            let inner = match &options[i] {
                BitArrayOption::Size { value, .. } => self.bit_array_segment_expr(value),
                _ => nil(),
            };
            push_doc(&mut docs, segment_option(&options[i], inner));
            i += 1;
        }
        value.append(text(":")).append(join(docs, text("-")))
    }

    /// The segments of a bit array.
    fn expr_segments<'a>(&mut self, segments: &'a Vec<BitArraySegment<UntypedExpr>>) -> (r: Vec<
        Document<'a>,
    >)
        requires
            forall|i: int| 0 <= i < segments@.len() ==> segment_ok(&#[trigger] segments@[i]),
        ensures
            docs_of(r@) == expr_segments_low(segments@, segments@.len() as int, old(self)@).docs,
            final(self)@ == expr_segments_low(segments@, segments@.len() as int, old(self)@).trivia,
        decreases segments, 0int,
    {
        let ghost start = self@;
        let mut docs: Vec<Document<'a>> = Vec::new();
        let mut i: usize = 0;
        assert(docs_of(docs@) =~= expr_segments_low(segments@, 0, start).docs);
        while i < segments.len()
            invariant
                i <= segments@.len(),
                forall|i: int| 0 <= i < segments@.len() ==> segment_ok(&#[trigger] segments@[i]),
                docs_of(docs@) == expr_segments_low(segments@, i as int, start).docs,
                self@ == expr_segments_low(segments@, i as int, start).trivia,
            decreases segments@.len() - i,
        {
            let doc = self.expr_segment(&segments[i]);
            push_doc(&mut docs, doc);
            i += 1;
        }
        docs
    }

    /// One clause of a `case`.
    fn clause<'a>(&mut self, clause: &'a Clause, first: bool) -> (r: Document<'a>)
        requires
            expr_ok(&clause.body),
        ensures
            r@ == clause_low(clause, first, old(self)@).doc,
            final(self)@ == clause_low(clause, first, old(self)@).trivia,
        decreases clause, 0int,
    {
        let space_before = self.pop_empty_lines(clause.location.start);
        let comments = self.pop_comments(clause.location.start);
        let patterns = self.patterns(&clause.pattern);
        let alternatives = self.alternatives(&clause.alternative_patterns);
        let mut all: Vec<Document<'a>> = Vec::new();
        let ghost pattern_docs = docs_of(patterns@);
        push_doc(&mut all, join(patterns, text(", ")));
        crate::trivia::append_docs(&mut all, alternatives);
        assert(docs_of(all@) =~= seq![Doc::join(pattern_docs, Doc::text(", "@))] + docs_of(
            alternatives@,
        ));
        let clause_doc = join(all, break_("", " ").append(text("| "))).group();
        let clause_doc = match &clause.guard {
            None => clause_doc,
            Some(guard) => clause_doc.append(text(" if ")).append(clause_guard(guard)),
        };
        let clause_doc = commented(clause_doc, &comments);
        let head = if first {
            clause_doc
        } else if space_before {
            lines(2).append(clause_doc)
        } else {
            lines(1).append(clause_doc)
        };
        head.append(text(" ->")).append(self.case_clause_value(&clause.body))
    }

    /// The clauses of a `case`.
    fn clauses<'a>(&mut self, clauses: &'a Vec<Clause>) -> (r: Vec<Document<'a>>)
        requires
            forall|i: int| 0 <= i < clauses@.len() ==> expr_ok(&(#[trigger] clauses@[i]).body),
        ensures
            docs_of(r@) == clauses_low(clauses@, clauses@.len() as int, old(self)@).docs,
            final(self)@ == clauses_low(clauses@, clauses@.len() as int, old(self)@).trivia,
        decreases clauses, 0int,
    {
        let ghost start = self@;
        let mut docs: Vec<Document<'a>> = Vec::new();
        let mut i: usize = 0;
        assert(docs_of(docs@) =~= clauses_low(clauses@, 0, start).docs);
        while i < clauses.len()
            invariant
                i <= clauses@.len(),
                forall|i: int| 0 <= i < clauses@.len() ==> expr_ok(&(#[trigger] clauses@[i]).body),
                docs_of(docs@) == clauses_low(clauses@, i as int, start).docs,
                self@ == clauses_low(clauses@, i as int, start).trivia,
            decreases clauses@.len() - i,
        {
            let doc = self.clause(&clauses[i], i == 0);
            push_doc(&mut docs, doc);
            i += 1;
        }
        docs
    }

    /// The value of a clause after its arrow.
    fn case_clause_value<'a>(&mut self, expr: &'a UntypedExpr) -> (r: Document<'a>)
        requires
            expr_ok(expr),
        ensures
            r@ == value_low(expr, old(self)@).doc,
            final(self)@ == value_low(expr, old(self)@).trivia,
        decreases expr, 2int,
    {
        match expr {
            UntypedExpr::Fn { .. }
            | UntypedExpr::List { .. }
            | UntypedExpr::Tuple { .. }
            | UntypedExpr::BitArray { .. } => text(" ").append(self.expr(expr)),
            UntypedExpr::Case { .. } => line().append(self.expr(expr)).nest(INDENT),
            UntypedExpr::Block { statements, .. } => text(" {").append(
                line().append(self.statements(statements)).nest(INDENT),
            ).append(line()).append(text("}")),
            _ => break_("", " ").append(self.expr(expr)).nest(INDENT),
        }.group()
    }

    /// The value of an assignment after its `=`.
    fn assigned_value<'a>(&mut self, expr: &'a UntypedExpr) -> (r: Document<'a>)
        requires
            expr_ok(expr),
        ensures
            r@ == assigned_low(expr, old(self)@).doc,
            final(self)@ == assigned_low(expr, old(self)@).trivia,
        decreases expr, 3int,
    {
        match expr {
            UntypedExpr::Case { .. } => text(" ").append(self.expr(expr)).group(),
            _ => self.case_clause_value(expr),
        }
    }

    /// A pipeline: one stage to a line.
    fn pipeline<'a>(&mut self, expressions: &'a Vec<UntypedExpr>) -> (r: Document<'a>)
        requires
            expressions@.len() > 0,
            expr_ok(&expressions@[0]),
            forall|i: int| 1 <= i < expressions@.len() ==> stage_ok(&#[trigger] expressions@[i]),
        ensures
            r@ == pipeline_low(expressions@, old(self)@).doc,
            final(self)@ == pipeline_low(expressions@, old(self)@).trivia,
        decreases expressions, 0int,
    {
        let ghost start = self@;
        let mut docs: Vec<Document<'a>> = Vec::new();
        let first = &expressions[0];
        let first_precedence = first.binop_precedence();
        let first_doc = self.expr(first);
        push_doc(&mut docs, operand(first_doc, 5, first_precedence));
        assert(docs_of(docs@) =~= stages_upto(expressions@, 1, start).docs);
        let mut i: usize = 1;
        while i < expressions.len()
            invariant
                1 <= i <= expressions@.len(),
                forall|i: int|
                    1 <= i < expressions@.len() ==> stage_ok(&#[trigger] expressions@[i]),
                docs_of(docs@) == stages_upto(expressions@, i as int, start).docs,
                self@ == stages_upto(expressions@, i as int, start).trivia,
            decreases expressions@.len() - i,
        {
            let stage = &expressions[i];
            let comments = self.pop_comments(stage.location().start);
            let doc = match stage {
                UntypedExpr::Fn { is_capture: true, body, .. } => match &body[0] {
                    Statement::Expression(inner) => self.pipe_capture_right_hand_side(inner),
                    _ => nil(),
                },
                _ => self.expr(stage),
            };
            push_doc(&mut docs, line());
            push_doc(&mut docs, commented(text("|> "), &comments));
            push_doc(&mut docs, operand(doc, 4, stage.binop_precedence()));
            i += 1;
        }
        concat(docs).force_break()
    }

    /// A capture as the stage of a pipeline: the call without its hole where
    /// the hole comes first.
    fn pipe_capture_right_hand_side<'a>(&mut self, fun: &'a UntypedExpr) -> (r: Document<'a>)
        requires
            fun matches UntypedExpr::Call { fun, arguments, .. } && expr_ok(&**fun) && call_args_ok(
                arguments@,
            ),
        ensures
            r@ == pipe_capture_low(fun, old(self)@).doc,
            final(self)@ == pipe_capture_low(fun, old(self)@).trivia,
        decreases fun, 0int,
    {
        match fun {
            UntypedExpr::Call { fun, arguments, .. } => {
                let hole_in_first_position = arguments.len() > 0
                    && arguments[0].value.is_capture_hole();
                if hole_in_first_position && arguments.len() == 1 {
                    self.expr(fun)
                } else if hole_in_first_position {
                    self.expr(fun).append(wrap_args(self.call_args(arguments, 1)).group())
                } else {
                    self.expr(fun).append(wrap_args(self.call_args(arguments, 0)).group())
                }
            },
            _ => nil(),
        }
    }

    /// A function capture: the call with its hole.
    fn fn_capture<'a>(&mut self, call: &'a Vec<Statement>) -> (r: Document<'a>)
        requires
            call@.len() == 1,
            capture_stage_ok(call@),
        ensures
            r@ == fn_capture_low(call@, old(self)@).doc,
            final(self)@ == fn_capture_low(call@, old(self)@).trivia,
        decreases call, 0int,
    {
        match &call[0] {
            Statement::Expression(UntypedExpr::Call { fun, arguments, .. }) => {
                if arguments.len() == 2 && is_breakable_expr(&arguments[1].value)
                    && arguments[0].value.is_capture_hole() {
                    self.expr(fun).append(text("(_, ")).append(
                        self.call_arg(&arguments[1]),
                    ).append(text(")")).group()
                } else {
                    self.expr(fun).append(wrap_args(self.call_args(arguments, 0)).group())
                }
            },
            _ => nil(),
        }
    }

    /// A boolean negation.
    fn negate_bool<'a>(&mut self, expr: &'a UntypedExpr) -> (r: Document<'a>)
        requires
            expr_ok(expr),
        ensures
            r@ == negate_bool_low(expr, old(self)@).doc,
            final(self)@ == negate_bool_low(expr, old(self)@).trivia,
        decreases expr, 2int,
    {
        match expr {
            UntypedExpr::BinOp { .. } => text("!").append(wrap_block(self.expr(expr))),
            _ => text("!").append(self.expr(expr)),
        }
    }

    /// An integer negation.
    fn negate_int<'a>(&mut self, expr: &'a UntypedExpr) -> (r: Document<'a>)
        requires
            expr_ok(expr),
        ensures
            r@ == negate_int_low(expr, old(self)@).doc,
            final(self)@ == negate_int_low(expr, old(self)@).trivia,
        decreases expr, 2int,
    {
        match expr {
            UntypedExpr::BinOp { .. } | UntypedExpr::NegateInt { .. } => text("- ").append(
                self.expr(expr),
            ),
            _ => text("-").append(self.expr(expr)),
        }
    }

    /// A binary operation. `whole` is the operation that the parts are
    /// taken from.
    fn operation<'a>(
        &mut self,
        Ghost(whole): Ghost<&UntypedExpr>,
        name: &'a crate::ast::BinOp,
        left: &'a UntypedExpr,
        right: &'a UntypedExpr,
    ) -> (r: Document<'a>)
        requires
            whole matches UntypedExpr::BinOp { name: n, left: l, right: r, .. } && n == name && **l
                == *left && **r == *right,
            expr_ok(left),
            expr_ok(right),
        ensures
            r@ == operation_low(whole, old(self)@).doc,
            final(self)@ == operation_low(whole, old(self)@).trivia,
        decreases whole, 0int,
    {
        let left_precedence = left.binop_precedence();
        let right_precedence = right.binop_precedence();
        let left = self.expr(left);
        let right = self.expr(right);
        binary(name.name(), name.precedence(), left, left_precedence, right, right_precedence)
    }

    /// A `case`. `whole` is the `case` that the parts are taken from.
    fn case_expr<'a>(
        &mut self,
        Ghost(whole): Ghost<&UntypedExpr>,
        subjects: &'a Vec<UntypedExpr>,
        clauses: &'a Vec<Clause>,
    ) -> (r: Document<'a>)
        requires
            whole matches UntypedExpr::Case { subjects: s, clauses: c, .. } && s == subjects && c
                == clauses,
            forall|i: int| 0 <= i < subjects@.len() ==> expr_ok(&#[trigger] subjects@[i]),
            forall|i: int| 0 <= i < clauses@.len() ==> expr_ok(&(#[trigger] clauses@[i]).body),
        ensures
            r@ == case_expr_low(whole, old(self)@).doc,
            final(self)@ == case_expr_low(whole, old(self)@).trivia,
        decreases whole, 0int,
    {
        let subjects = self.exprs(subjects);
        let clauses = self.clauses(clauses);
        case_document(subjects, clauses)
    }

    /// A record update. `whole` is the update that the parts are taken from.
    fn update<'a>(
        &mut self,
        Ghost(whole): Ghost<&UntypedExpr>,
        constructor: &'a UntypedExpr,
        spread: &'a crate::ast::RecordUpdateSpread,
        args: &'a Vec<UntypedRecordUpdateArg>,
    ) -> (r: Document<'a>)
        requires
            whole matches UntypedExpr::RecordUpdate { constructor: c, spread: s, arguments: a, .. }
                && **c == *constructor && s == spread && a == args,
            expr_ok(constructor),
            expr_ok(&*spread.base),
            forall|i: int| 0 <= i < args@.len() ==> expr_ok(&(#[trigger] args@[i]).value),
        ensures
            r@ == update_low(whole, old(self)@).doc,
            final(self)@ == update_low(whole, old(self)@).trivia,
        decreases whole, 0int,
    {
        let constructor_doc = self.expr(constructor);
        let comments = self.pop_comments(spread.base.location().start);
        let spread_doc = commented(text("..").append(self.expr(&spread.base)), &comments);
        let args = self.record_update_args(args);
        record_update_document(constructor_doc, spread_doc, args)
    }

    /// Lowers a binary operation from its parts.
    pub fn bin_op<'a>(
        &mut self,
        name: &'a crate::ast::BinOp,
        left: &'a UntypedExpr,
        right: &'a UntypedExpr,
    ) -> (r: Document<'a>)
        requires
            expr_ok(left),
            expr_ok(right),
        ensures
            r@ == bin_op_low(*name, left, right, old(self)@).doc,
            final(self)@ == bin_op_low(*name, left, right, old(self)@).trivia,
    {
        let ghost whole = operation_of(*name, left, right);
        self.operation(Ghost(&whole), name, left, right)
    }

    /// Lowers a `case` from its subjects and clauses.
    pub fn case<'a>(&mut self, subjects: &'a Vec<UntypedExpr>, clauses: &'a Vec<Clause>) -> (r:
        Document<'a>)
        requires
            forall|i: int| 0 <= i < subjects@.len() ==> expr_ok(&#[trigger] subjects@[i]),
            forall|i: int| 0 <= i < clauses@.len() ==> expr_ok(&(#[trigger] clauses@[i]).body),
        ensures
            r@ == case_low(subjects, clauses, old(self)@).doc,
            final(self)@ == case_low(subjects, clauses, old(self)@).trivia,
    {
        let ghost whole = case_of(subjects, clauses);
        self.case_expr(Ghost(&whole), subjects, clauses)
    }

    /// Lowers a record update from its parts.
    pub fn record_update<'a>(
        &mut self,
        constructor: &'a UntypedExpr,
        spread: &'a crate::ast::RecordUpdateSpread,
        args: &'a Vec<UntypedRecordUpdateArg>,
    ) -> (r: Document<'a>)
        requires
            expr_ok(constructor),
            expr_ok(&*spread.base),
            forall|i: int| 0 <= i < args@.len() ==> expr_ok(&(#[trigger] args@[i]).value),
        ensures
            r@ == record_update_low(constructor, spread, args, old(self)@).doc,
            final(self)@ == record_update_low(constructor, spread, args, old(self)@).trivia,
    {
        let ghost whole = update_of(constructor, spread, args);
        self.update(Ghost(&whole), constructor, spread, args)
    }
}

/// Between two statements stands one line break, with at most one blank
/// line: the documents of the first `n` statements are the statements at the
/// even places and line breaks at the odd ones.
pub proof fn statements_are_separated(statements: Seq<Statement>, n: int, t: Trivia)
    requires
        0 <= n <= statements.len(),
    ensures
        statements_upto(statements, n, t).docs.len() == (if n == 0 {
            0
        } else {
            2 * n - 1
        }),
        forall|j: int|
            0 <= j < statements_upto(statements, n, t).docs.len() && j % 2 == 1
                ==> crate::trivia::is_separator(#[trigger] statements_upto(statements, n, t).docs[j]),
    decreases n,
{
    if n > 0 {
        statements_are_separated(statements, n - 1, t);
        let before = statements_upto(statements, n - 1, t).docs;
        let all = statements_upto(statements, n, t).docs;
        assert forall|j: int| 0 <= j < all.len() && j % 2 == 1 implies crate::trivia::is_separator(
            #[trigger] all[j],
        ) by {
            if j < before.len() {
                assert(all[j] == before[j]);
            }
        }
    }
}

/// Between two statements stands a blank line exactly when one of the source
/// is due there: the separator before the statement at `i` is a blank line
/// when the first blank line that the statements before it have not consumed
/// stands no later than the line after the end of the statement before, and
/// a plain line break when it stands later or none is left. It is never more
/// than one blank line.
pub proof fn a_blank_line_is_kept_between_statements(
    statements: Seq<Statement>,
    n: int,
    i: int,
    t: Trivia,
)
    requires
        1 <= i < n <= statements.len(),
    ensures
        ({
            let left = statements_upto(statements, i, t).trivia.empty_lines;
            let limit = next_position(statement_span(&statements[i - 1]).end);
            let separator = statements_upto(statements, n, t).docs[2 * i - 1];
            &&& statements_upto(statements, n, t).docs.len() == 2 * n - 1
            &&& left.len() > 0 && left[0] <= limit ==> separator == Doc::lines(2)
            &&& left.len() == 0 || left[0] > limit ==> separator == Doc::lines(1)
        }),
    decreases n,
{
    statements_are_separated(statements, n, t);
    statements_are_separated(statements, n - 1, t);
    if n > i + 1 {
        a_blank_line_is_kept_between_statements(statements, n - 1, i, t);
        let before = statements_upto(statements, n - 1, t).docs;
        let all = statements_upto(statements, n, t).docs;
        assert(all[2 * i - 1] == before[2 * i - 1]);
    } else {
        let before = statements_upto(statements, i, t);
        let all = statements_upto(statements, n, t).docs;
        assert(all[2 * i - 1] == (if before.trivia.blank_upto(
            next_position(statement_span(&statements[i - 1]).end),
        ) {
            Doc::lines(2)
        } else {
            Doc::lines(1)
        }));
    }
}

} // verus!
