//! Expressions and statements print the comments they pop.

use vstd::prelude::*;
use crate::ast::{
    Arg,
    Assignment,
    BinOp,
    BitArrayOption,
    BitArraySegment,
    CallArg,
    Clause,
    ClauseGuard,
    Pattern,
    RecordUpdateSpread,
    Statement,
    UntypedExpr,
    UntypedRecordUpdateArg,
    Use,
    UseAssignment,
};
use crate::comments::patterns::{pattern_conserves, patterns_conserve};
use crate::comments::plain::{
    buffers_of_an_option,
    buffers_of_operands,
    guards_are_plain,
    literals_are_plain,
    types_are_plain,
};
use crate::comments::{
    all_buffers,
    blank_lines_conserve,
    buffers,
    buffers_of_both,
    buffers_of_concat,
    buffers_of_join,
    buffers_of_pushed,
    buffers_of_wrapped,
    commenting_conserves,
    conserves,
    conserves_all,
    one_more_conserves,
};
use crate::expr::{
    alternatives_low,
    assigned_low,
    assignment_low,
    bin_op_low,
    case_expr_low,
    case_of,
    call_arg_low,
    call_args_low,
    call_low,
    case_doc,
    case_low,
    clause_head_doc,
    clause_low,
    clauses_low,
    expr_fn_low,
    expr_low,
    expr_options_low,
    expr_precedence,
    expr_segment_low,
    expr_segments_low,
    expr_segments_simple,
    expr_span,
    expr_start,
    exprs_low,
    exprs_simple,
    fn_arg_low,
    fn_args_low,
    fn_capture_low,
    list_low,
    negate_bool_low,
    negate_int_low,
    next_position,
    pipe_capture_low,
    pipeline_low,
    record_update_arg_low,
    record_update_args_low,
    record_update_doc,
    operation_low,
    operation_of,
    record_update_low,
    update_low,
    update_of,
    segment_expr_low,
    stages_upto,
    statement_low,
    statement_span,
    statements_low,
    statements_upto,
    use_assignment_low,
    use_assignments_low,
    use_left_doc,
    use_low,
    value_low,
};
use crate::pattern::{pattern_low, patterns_low};
use crate::pretty::{interspersed, Doc};
use crate::segment::option_doc;
use crate::trivia::{Lowered, Trivia};
use crate::wrap::comma_doc;

verus! {

proof fn buffers_of_a_case(subjects: Seq<Doc>, clauses: Seq<Doc>)
    ensures
        buffers(case_doc(subjects, clauses)) =~= all_buffers(subjects).add(all_buffers(clauses)),
{
    reveal_with_fuel(buffers, 12);
    buffers_of_join(subjects, Doc::break_(","@, ", "@));
    buffers_of_concat(clauses);
}

proof fn buffers_of_a_record_update(constructor: Doc, spread: Doc, args: Seq<Doc>)
    ensures
        buffers(record_update_doc(constructor, spread, args)) =~= buffers(constructor).add(
            buffers(spread),
        ).add(all_buffers(args)),
{
    reveal_with_fuel(buffers, 4);
    buffers_of_wrapped(seq![spread] + args, Doc::Nil, false);
    buffers_of_both(seq![spread], args);
    assert(seq![spread] =~= Seq::<Doc>::empty().push(spread));
    buffers_of_pushed(Seq::<Doc>::empty(), spread);
}

proof fn buffers_of_a_clause_head(
    patterns: Seq<Doc>,
    alternatives: Seq<Doc>,
    guard: Option<ClauseGuard>,
)
    ensures
        buffers(clause_head_doc(patterns, alternatives, guard)) =~= all_buffers(patterns).add(
            all_buffers(alternatives),
        ),
{
    reveal_with_fuel(buffers, 6);
    let first = Doc::join(patterns, Doc::text(", "@));
    buffers_of_join(patterns, Doc::text(", "@));
    let all = seq![first] + alternatives;
    buffers_of_both(seq![first], alternatives);
    assert(seq![first] =~= Seq::<Doc>::empty().push(first));
    buffers_of_pushed(Seq::<Doc>::empty(), first);
    buffers_of_join(all, Doc::break_(""@, " "@).append(Doc::text("| "@)));
    match guard {
        Some(guard) => {
            guards_are_plain(&guard);
        },
        None => {},
    }
}

proof fn buffers_of_a_use_left(assignments: Seq<Doc>)
    ensures
        buffers(use_left_doc(assignments)) =~= all_buffers(assignments),
{
    reveal_with_fuel(buffers, 6);
    let head = seq![Doc::text("use"@), Doc::break_(""@, " "@)];
    let rest = interspersed(assignments, Doc::break_(","@, ", "@));
    buffers_of_join(assignments, Doc::break_(","@, ", "@));
    buffers_of_concat(rest);
    buffers_of_both(head, rest);
    assert(head =~= Seq::<Doc>::empty().push(Doc::text("use"@)).push(Doc::break_(""@, " "@)));
    buffers_of_pushed(Seq::<Doc>::empty(), Doc::text("use"@));
    buffers_of_pushed(Seq::<Doc>::empty().push(Doc::text("use"@)), Doc::break_(""@, " "@));
    buffers_of_concat(head + rest);
}

/// The parameter of a function holds the comments it pops, each once.
pub proof fn fn_arg_conserves(arg: &Arg, t: Trivia)
    ensures
        conserves(t, fn_arg_low(arg, t)),
{
    reveal_with_fuel(buffers, 6);
    commenting_conserves(t, arg.location.start);
    match arg.annotation {
        Some(annotation) => {
            types_are_plain(&annotation);
        },
        None => {},
    }
}

/// The parameters of a function hold the comments they pop, each once.
pub proof fn fn_args_conserve(args: Seq<Arg>, n: int, t: Trivia)
    ensures
        conserves_all(t, fn_args_low(args, n, t)),
    decreases n,
{
    if !(n <= 0 || n > args.len()) {
        fn_args_conserve(args, n - 1, t);
        let before = fn_args_low(args, n - 1, t);
        fn_arg_conserves(&args[n - 1], before.trivia);
        one_more_conserves(t, before, fn_arg_low(&args[n - 1], before.trivia));
    }
}

proof fn use_assignment_conserves(assignment: &UseAssignment, t: Trivia)
    ensures
        conserves(t, use_assignment_low(assignment, t)),
{
    reveal_with_fuel(buffers, 6);
    pattern_conserves(&assignment.pattern, t);
    match assignment.annotation {
        Some(annotation) => {
            types_are_plain(&annotation);
        },
        None => {},
    }
}

proof fn use_assignments_conserve(assignments: Seq<UseAssignment>, n: int, t: Trivia)
    ensures
        conserves_all(t, use_assignments_low(assignments, n, t)),
    decreases n,
{
    if !(n <= 0 || n > assignments.len()) {
        use_assignments_conserve(assignments, n - 1, t);
        let before = use_assignments_low(assignments, n - 1, t);
        use_assignment_conserves(&assignments[n - 1], before.trivia);
        one_more_conserves(t, before, use_assignment_low(&assignments[n - 1], before.trivia));
    }
}

proof fn alternatives_conserve(alternatives: Seq<Vec<Pattern>>, n: int, t: Trivia)
    ensures
        conserves_all(t, alternatives_low(alternatives, n, t)),
    decreases n,
{
    if !(n <= 0 || n > alternatives.len()) {
        alternatives_conserve(alternatives, n - 1, t);
        let before = alternatives_low(alternatives, n - 1, t);
        let patterns = alternatives[n - 1]@;
        patterns_conserve(patterns, patterns.len() as int, before.trivia);
        let next = patterns_low(patterns, patterns.len() as int, before.trivia);
        buffers_of_join(next.docs, Doc::text(", "@));
        one_more_conserves(
            t,
            before,
            Lowered { doc: Doc::join(next.docs, Doc::text(", "@)), trivia: next.trivia },
        );
    }
}

/// A list of expressions holds the comments it pops, each once.
pub proof fn exprs_conserve(exprs: Seq<UntypedExpr>, n: int, t: Trivia)
    ensures
        conserves_all(t, exprs_low(exprs, n, t)),
    decreases exprs, n,
{
    if !(n <= 0 || n > exprs.len()) {
        exprs_conserve(exprs, n - 1, t);
        let before = exprs_low(exprs, n - 1, t);
        expr_conserves(&exprs[n - 1], before.trivia);
        one_more_conserves(t, before, expr_low(&exprs[n - 1], before.trivia));
    }
}

proof fn call_arg_conserves(arg: &CallArg<UntypedExpr>, t: Trivia)
    ensures
        conserves(t, call_arg_low(arg, t)),
    decreases arg, 0int,
{
    reveal_with_fuel(buffers, 6);
    match arg.label {
        Some(label) => {
            commenting_conserves(t, arg.location.start);
            expr_conserves(&arg.value, t.after_comments(arg.location.start));
        },
        None => {
            expr_conserves(&arg.value, t);
        },
    }
}

proof fn call_args_conserve(args: Seq<CallArg<UntypedExpr>>, from: int, n: int, t: Trivia)
    ensures
        conserves_all(t, call_args_low(args, from, n, t)),
    decreases args, n,
{
    if !(n <= from || from < 0 || n > args.len()) {
        call_args_conserve(args, from, n - 1, t);
        let before = call_args_low(args, from, n - 1, t);
        call_arg_conserves(&args[n - 1], before.trivia);
        one_more_conserves(t, before, call_arg_low(&args[n - 1], before.trivia));
    }
}

proof fn record_update_arg_conserves(arg: &UntypedRecordUpdateArg, t: Trivia)
    ensures
        conserves(t, record_update_arg_low(arg, t)),
    decreases arg, 0int,
{
    reveal_with_fuel(buffers, 6);
    commenting_conserves(t, arg.location.start);
    expr_conserves(&arg.value, t.after_comments(arg.location.start));
}

proof fn record_update_args_conserve(args: Seq<UntypedRecordUpdateArg>, n: int, t: Trivia)
    ensures
        conserves_all(t, record_update_args_low(args, n, t)),
    decreases args, n,
{
    if !(n <= 0 || n > args.len()) {
        record_update_args_conserve(args, n - 1, t);
        let before = record_update_args_low(args, n - 1, t);
        record_update_arg_conserves(&args[n - 1], before.trivia);
        one_more_conserves(t, before, record_update_arg_low(&args[n - 1], before.trivia));
    }
}

proof fn segment_expr_conserves(e: &UntypedExpr, t: Trivia)
    ensures
        conserves(t, segment_expr_low(e, t)),
    decreases e, 2int,
{
    expr_conserves(e, t);
    buffers_of_wrapped(Seq::empty(), expr_low(e, t).doc, false);
}

proof fn expr_options_conserve(options: Seq<BitArrayOption<UntypedExpr>>, n: int, t: Trivia)
    ensures
        conserves_all(t, expr_options_low(options, n, t)),
    decreases options, n,
{
    if !(n <= 0 || n > options.len()) {
        expr_options_conserve(options, n - 1, t);
        let before = expr_options_low(options, n - 1, t);
        let inner = match options[n - 1] {
            BitArrayOption::Size { value, .. } => segment_expr_low(&*value, before.trivia),
            _ => Lowered { doc: Doc::Nil, trivia: before.trivia },
        };
        match options[n - 1] {
            BitArrayOption::Size { value, .. } => {
                segment_expr_conserves(&*value, before.trivia);
            },
            _ => {},
        }
        buffers_of_an_option(&options[n - 1], inner.doc);
        one_more_conserves(
            t,
            before,
            Lowered { doc: option_doc(&options[n - 1], inner.doc), trivia: inner.trivia },
        );
    }
}

proof fn expr_segment_conserves(segment: &BitArraySegment<UntypedExpr>, t: Trivia)
    ensures
        conserves(t, expr_segment_low(segment, t)),
    decreases segment, 0int,
{
    reveal_with_fuel(buffers, 4);
    segment_expr_conserves(&*segment.value, t);
    if segment.options@.len() != 0 {
        let value = segment_expr_low(&*segment.value, t);
        expr_options_conserve(segment.options@, segment.options@.len() as int, value.trivia);
        buffers_of_join(
            expr_options_low(segment.options@, segment.options@.len() as int, value.trivia).docs,
            Doc::text("-"@),
        );
    }
}

proof fn expr_segments_conserve(segments: Seq<BitArraySegment<UntypedExpr>>, n: int, t: Trivia)
    ensures
        conserves_all(t, expr_segments_low(segments, n, t)),
    decreases segments, n,
{
    if !(n <= 0 || n > segments.len()) {
        expr_segments_conserve(segments, n - 1, t);
        let before = expr_segments_low(segments, n - 1, t);
        expr_segment_conserves(&segments[n - 1], before.trivia);
        one_more_conserves(t, before, expr_segment_low(&segments[n - 1], before.trivia));
    }
}

proof fn statements_upto_conserve(statements: Seq<Statement>, n: int, t: Trivia)
    ensures
        conserves_all(t, statements_upto(statements, n, t)),
    decreases statements, n,
{
    reveal_with_fuel(buffers, 3);
    if !(n <= 0 || n > statements.len()) {
        statements_upto_conserve(statements, n - 1, t);
        let before = statements_upto(statements, n - 1, t);
        let previous: u32 = if n == 1 {
            0
        } else {
            statement_span(&statements[n - 2]).end
        };
        let limit = next_position(previous);
        blank_lines_conserve(before.trivia, limit);
        let t1 = before.trivia.after_empty_lines(limit);
        statement_conserves(&statements[n - 1], t1);
        let next = statement_low(&statements[n - 1], t1);
        buffers_of_pushed(before.docs, Doc::lines(2));
        buffers_of_pushed(before.docs, Doc::lines(1));
        let docs = if n == 1 {
            before.docs
        } else if before.trivia.blank_upto(limit) {
            before.docs.push(Doc::lines(2))
        } else {
            before.docs.push(Doc::lines(1))
        };
        buffers_of_pushed(docs, next.doc.group());
    }
}

/// A sequence of statements holds the comments it pops, each once.
pub proof fn statements_conserve(statements: Seq<Statement>, t: Trivia)
    ensures
        conserves(t, statements_low(statements, t)),
    decreases statements, statements.len() + 1,
{
    reveal_with_fuel(buffers, 3);
    statements_upto_conserve(statements, statements.len() as int, t);
    buffers_of_concat(statements_upto(statements, statements.len() as int, t).docs);
}

proof fn statement_conserves(s: &Statement, t: Trivia)
    ensures
        conserves(t, statement_low(s, t)),
    decreases s, 0int,
{
    match s {
        Statement::Expression(e) => {
            expr_conserves(e, t);
        },
        Statement::Assignment(a) => {
            assignment_conserves(a, t);
        },
        Statement::Use(u) => {
            use_conserves(u, t);
        },
    }
}

proof fn assignment_conserves(a: &Assignment, t: Trivia)
    ensures
        conserves(t, assignment_low(a, t)),
    decreases a, 0int,
{
    reveal_with_fuel(buffers, 8);
    commenting_conserves(t, a.location.start);
    blank_lines_conserve(t.after_comments(a.location.start), a.pattern.span().end);
    let t1 = t.after_comments(a.location.start).after_empty_lines(a.pattern.span().end);
    pattern_conserves(&a.pattern, t1);
    let pattern = pattern_low(&a.pattern, t1);
    match a.annotation {
        Some(annotation) => {
            types_are_plain(&annotation);
        },
        None => {},
    }
    assigned_conserves(&*a.value, pattern.trivia);
}

proof fn use_conserves(u: &Use, t: Trivia)
    ensures
        conserves(t, use_low(u, t)),
    decreases u, 0int,
{
    reveal_with_fuel(buffers, 8);
    commenting_conserves(t, u.location.start);
    let t1 = t.after_comments(u.location.start);
    expr_conserves(&*u.call, t1);
    let call = expr_low(&*u.call, t1);
    if u.assignments@.len() != 0 {
        use_assignments_conserve(u.assignments@, u.assignments@.len() as int, call.trivia);
        buffers_of_a_use_left(
            use_assignments_low(u.assignments@, u.assignments@.len() as int, call.trivia).docs,
        );
    }
}

proof fn expr_fn_conserves(e: &UntypedExpr, t: Trivia)
    ensures
        conserves(t, expr_fn_low(e, t)),
    decreases e, 0int,
{
    reveal_with_fuel(buffers, 8);
    match e {
        UntypedExpr::Fn { arguments, body, return_annotation, .. } => {
            fn_args_conserve(arguments@, arguments@.len() as int, t);
            let args = fn_args_low(arguments@, arguments@.len() as int, t);
            buffers_of_wrapped(args.docs, Doc::Nil, false);
            statements_conserve(body@, args.trivia);
            buffers_of_wrapped(Seq::empty(), statements_low(body@, args.trivia).doc, false);
            match return_annotation {
                Some(annotation) => {
                    types_are_plain(annotation);
                },
                None => {},
            }
        },
        _ => {},
    }
}

proof fn list_conserves(e: &UntypedExpr, t: Trivia)
    ensures
        conserves(t, list_low(e, t)),
    decreases e, 0int,
{
    reveal_with_fuel(buffers, 10);
    match e {
        UntypedExpr::List { elements, tail, .. } => {
            if elements@.len() == 0 {
                match tail {
                    Some(tail) => {
                        expr_conserves(&**tail, t);
                    },
                    None => {},
                }
            } else {
                let simple = tail is None && exprs_simple(elements@, elements@.len() as int);
                exprs_conserve(elements@, elements@.len() as int, t);
                let items = exprs_low(elements@, elements@.len() as int, t);
                buffers_of_wrapped(Seq::empty(), Doc::Nil, simple);
                buffers_of_join(items.docs, comma_doc(simple));
                match tail {
                    None => {},
                    Some(tail) => {
                        let start = expr_span(&**tail).start;
                        commenting_conserves(items.trivia, start);
                        expr_conserves(&**tail, items.trivia.after_comments(start));
                    },
                }
            }
        },
        _ => {},
    }
}

proof fn call_conserves(e: &UntypedExpr, t: Trivia)
    ensures
        conserves(t, call_low(e, t)),
    decreases e, 0int,
{
    reveal_with_fuel(buffers, 8);
    match e {
        UntypedExpr::Call { fun, arguments, .. } => {
            expr_conserves(&**fun, t);
            let f = expr_low(&**fun, t);
            buffers_of_wrapped(Seq::empty(), f.doc, false);
            if arguments@.len() == 1 {
                call_arg_conserves(&arguments@[0], f.trivia);
            }
            call_args_conserve(arguments@, 0, arguments@.len() as int, f.trivia);
            buffers_of_wrapped(
                call_args_low(arguments@, 0, arguments@.len() as int, f.trivia).docs,
                Doc::Nil,
                false,
            );
        },
        _ => {},
    }
}

proof fn clause_conserves(clause: &Clause, first: bool, t: Trivia)
    ensures
        conserves(t, clause_low(clause, first, t)),
    decreases clause, 0int,
{
    reveal_with_fuel(buffers, 8);
    let start = clause.location.start;
    blank_lines_conserve(t, start);
    let t1 = t.after_empty_lines(start);
    commenting_conserves(t1, start);
    patterns_conserve(clause.pattern@, clause.pattern@.len() as int, t1.after_comments(start));
    let patterns = patterns_low(
        clause.pattern@,
        clause.pattern@.len() as int,
        t1.after_comments(start),
    );
    alternatives_conserve(
        clause.alternative_patterns@,
        clause.alternative_patterns@.len() as int,
        patterns.trivia,
    );
    let alternatives = alternatives_low(
        clause.alternative_patterns@,
        clause.alternative_patterns@.len() as int,
        patterns.trivia,
    );
    buffers_of_a_clause_head(patterns.docs, alternatives.docs, clause.guard);
    value_conserves(&clause.body, alternatives.trivia);
}

proof fn clauses_conserve(clauses: Seq<Clause>, n: int, t: Trivia)
    ensures
        conserves_all(t, clauses_low(clauses, n, t)),
    decreases clauses, n,
{
    if !(n <= 0 || n > clauses.len()) {
        clauses_conserve(clauses, n - 1, t);
        let before = clauses_low(clauses, n - 1, t);
        clause_conserves(&clauses[n - 1], n == 1, before.trivia);
        one_more_conserves(t, before, clause_low(&clauses[n - 1], n == 1, before.trivia));
    }
}

proof fn value_conserves(e: &UntypedExpr, t: Trivia)
    ensures
        conserves(t, value_low(e, t)),
    decreases e, 2int,
{
    reveal_with_fuel(buffers, 8);
    match e {
        UntypedExpr::Block { statements, .. } => {
            statements_conserve(statements@, t);
        },
        _ => {
            expr_conserves(e, t);
        },
    }
}

proof fn assigned_conserves(e: &UntypedExpr, t: Trivia)
    ensures
        conserves(t, assigned_low(e, t)),
    decreases e, 3int,
{
    reveal_with_fuel(buffers, 4);
    if e is Case {
        expr_conserves(e, t);
    } else {
        value_conserves(e, t);
    }
}

proof fn pipe_capture_conserves(e: &UntypedExpr, t: Trivia)
    ensures
        conserves(t, pipe_capture_low(e, t)),
    decreases e, 0int,
{
    reveal_with_fuel(buffers, 6);
    match e {
        UntypedExpr::Call { fun, arguments, .. } => {
            expr_conserves(&**fun, t);
            let f = expr_low(&**fun, t);
            call_args_conserve(arguments@, 0, arguments@.len() as int, f.trivia);
            call_args_conserve(arguments@, 1, arguments@.len() as int, f.trivia);
            buffers_of_wrapped(
                call_args_low(arguments@, 0, arguments@.len() as int, f.trivia).docs,
                Doc::Nil,
                false,
            );
            buffers_of_wrapped(
                call_args_low(arguments@, 1, arguments@.len() as int, f.trivia).docs,
                Doc::Nil,
                false,
            );
        },
        _ => {},
    }
}

proof fn stages_conserve(stages: Seq<UntypedExpr>, n: int, t: Trivia)
    ensures
        conserves_all(t, stages_upto(stages, n, t)),
    decreases stages, n,
{
    reveal_with_fuel(buffers, 6);
    if n <= 0 || n > stages.len() {
    } else if n == 1 {
        expr_conserves(&stages[0], t);
        let first = expr_low(&stages[0], t);
        buffers_of_operands(Seq::empty(), 5, first.doc, expr_precedence(&stages[0]), Doc::Nil, 0);
        let doc = crate::guard::operator_side_doc(first.doc, 5, expr_precedence(&stages[0]));
        assert(seq![doc] =~= Seq::<Doc>::empty().push(doc));
        buffers_of_pushed(Seq::<Doc>::empty(), doc);
    } else {
        stages_conserve(stages, n - 1, t);
        let before = stages_upto(stages, n - 1, t);
        let start = expr_span(&stages[n - 1]).start;
        commenting_conserves(before.trivia, start);
        let t1 = before.trivia.after_comments(start);
        let stage = match stages[n - 1] {
            UntypedExpr::Fn { is_capture: true, body, .. } => {
                if body@.len() > 0 {
                    match body@[0] {
                        Statement::Expression(inner) => pipe_capture_low(&inner, t1),
                        _ => Lowered { doc: Doc::Nil, trivia: t1 },
                    }
                } else {
                    Lowered { doc: Doc::Nil, trivia: t1 }
                }
            },
            _ => expr_low(&stages[n - 1], t1),
        };
        match stages[n - 1] {
            UntypedExpr::Fn { is_capture: true, body, .. } => {
                if body@.len() > 0 {
                    match body@[0] {
                        Statement::Expression(inner) => {
                            pipe_capture_conserves(&inner, t1);
                        },
                        _ => {},
                    }
                }
            },
            _ => {
                expr_conserves(&stages[n - 1], t1);
            },
        }
        assert(conserves(t1, stage));
        buffers_of_operands(
            Seq::empty(),
            4,
            stage.doc,
            expr_precedence(&stages[n - 1]),
            Doc::Nil,
            0,
        );
        let bar = crate::trivia::commented_doc(
            Doc::text("|> "@),
            before.trivia.comments_upto(start),
        );
        let side = crate::guard::operator_side_doc(stage.doc, 4, expr_precedence(&stages[n - 1]));
        buffers_of_pushed(before.docs, Doc::line());
        buffers_of_pushed(before.docs.push(Doc::line()), bar);
        buffers_of_pushed(before.docs.push(Doc::line()).push(bar), side);
    }
}

proof fn pipeline_conserves(stages: Seq<UntypedExpr>, t: Trivia)
    ensures
        conserves(t, pipeline_low(stages, t)),
    decreases stages, stages.len() + 1,
{
    reveal_with_fuel(buffers, 3);
    stages_conserve(stages, stages.len() as int, t);
    buffers_of_concat(stages_upto(stages, stages.len() as int, t).docs);
}

proof fn fn_capture_conserves(body: Seq<Statement>, t: Trivia)
    ensures
        conserves(t, fn_capture_low(body, t)),
    decreases body, 0int,
{
    reveal_with_fuel(buffers, 8);
    if body.len() == 1 {
        match body[0] {
            Statement::Expression(UntypedExpr::Call { fun, arguments, .. }) => {
                expr_conserves(&*fun, t);
                let f = expr_low(&*fun, t);
                if arguments@.len() == 2 {
                    call_arg_conserves(&arguments@[1], f.trivia);
                }
                call_args_conserve(arguments@, 0, arguments@.len() as int, f.trivia);
                buffers_of_wrapped(
                    call_args_low(arguments@, 0, arguments@.len() as int, f.trivia).docs,
                    Doc::Nil,
                    false,
                );
            },
            _ => {},
        }
    }
}

proof fn negate_bool_conserves(e: &UntypedExpr, t: Trivia)
    ensures
        conserves(t, negate_bool_low(e, t)),
    decreases e, 2int,
{
    reveal_with_fuel(buffers, 4);
    expr_conserves(e, t);
    buffers_of_wrapped(Seq::empty(), expr_low(e, t).doc, false);
}

proof fn negate_int_conserves(e: &UntypedExpr, t: Trivia)
    ensures
        conserves(t, negate_int_low(e, t)),
    decreases e, 2int,
{
    reveal_with_fuel(buffers, 4);
    expr_conserves(e, t);
}

proof fn leaf_conserves(e: &UntypedExpr, t: Trivia)
    requires
        e is Placeholder || e is Panic || e is Todo || e is Var || e is Int || e is Float
            || e is String,
    ensures
        conserves(t, expr_low(e, t)),
{
    reveal_with_fuel(buffers, 4);
    commenting_conserves(t, expr_start(e));
    match e {
        UntypedExpr::Int { value, .. }
        | UntypedExpr::Float { value, .. }
        | UntypedExpr::String { value, .. } => {
            literals_are_plain(value@);
        },
        _ => {},
    }
}

proof fn block_conserves(e: &UntypedExpr, t: Trivia)
    requires
        e is Block,
    ensures
        conserves(t, expr_low(e, t)),
    decreases e, 0int,
{
    reveal_with_fuel(buffers, 8);
    commenting_conserves(t, expr_start(e));
    match e {
        UntypedExpr::Block { statements, .. } => {
            statements_conserve(statements@, t.after_comments(expr_start(e)));
        },
        _ => {},
    }
}

proof fn access_conserves(e: &UntypedExpr, t: Trivia)
    requires
        e is TupleIndex || e is FieldAccess,
    ensures
        conserves(t, expr_low(e, t)),
    decreases e, 0int,
{
    reveal_with_fuel(buffers, 6);
    commenting_conserves(t, expr_start(e));
    match e {
        UntypedExpr::TupleIndex { tuple, .. } => {
            expr_conserves(&**tuple, t.after_comments(expr_start(e)));
        },
        UntypedExpr::FieldAccess { container, .. } => {
            expr_conserves(&**container, t.after_comments(expr_start(e)));
        },
        _ => {},
    }
}

proof fn operation_conserves(e: &UntypedExpr, t: Trivia)
    requires
        e is BinOp,
    ensures
        conserves(t, operation_low(e, t)),
    decreases e, 0int,
{
    match e {
        UntypedExpr::BinOp { name, left, right, .. } => {
            expr_conserves(&**left, t);
            let l = expr_low(&**left, t);
            expr_conserves(&**right, l.trivia);
            let r = expr_low(&**right, l.trivia);
            buffers_of_operands(
                name.spec_name()@,
                name.spec_precedence(),
                l.doc,
                expr_precedence(&**left),
                r.doc,
                expr_precedence(&**right),
            );
        },
        _ => {},
    }
}

proof fn case_expr_conserves(e: &UntypedExpr, t: Trivia)
    requires
        e is Case,
    ensures
        conserves(t, case_expr_low(e, t)),
    decreases e, 0int,
{
    match e {
        UntypedExpr::Case { subjects, clauses, .. } => {
            exprs_conserve(subjects@, subjects@.len() as int, t);
            let s = exprs_low(subjects@, subjects@.len() as int, t);
            clauses_conserve(clauses@, clauses@.len() as int, s.trivia);
            let c = clauses_low(clauses@, clauses@.len() as int, s.trivia);
            buffers_of_a_case(s.docs, c.docs);
        },
        _ => {},
    }
}

proof fn collection_conserves(e: &UntypedExpr, t: Trivia)
    requires
        e is Tuple || e is BitArray,
    ensures
        conserves(t, expr_low(e, t)),
    decreases e, 0int,
{
    reveal_with_fuel(buffers, 4);
    commenting_conserves(t, expr_start(e));
    let t1 = t.after_comments(expr_start(e));
    match e {
        UntypedExpr::Tuple { elems, .. } => {
            exprs_conserve(elems@, elems@.len() as int, t1);
            buffers_of_wrapped(exprs_low(elems@, elems@.len() as int, t1).docs, Doc::Nil, false);
        },
        UntypedExpr::BitArray { segments, .. } => {
            expr_segments_conserve(segments@, segments@.len() as int, t1);
            buffers_of_wrapped(
                expr_segments_low(segments@, segments@.len() as int, t1).docs,
                Doc::Nil,
                expr_segments_simple(segments@, segments@.len() as int),
            );
        },
        _ => {},
    }
}

proof fn update_conserves(e: &UntypedExpr, t: Trivia)
    requires
        e is RecordUpdate,
    ensures
        conserves(t, update_low(e, t)),
    decreases e, 0int,
{
    reveal_with_fuel(buffers, 3);
    match e {
        UntypedExpr::RecordUpdate { constructor, spread, arguments, .. } => {
            expr_conserves(&**constructor, t);
            let c = expr_low(&**constructor, t);
            let start = expr_span(&*spread.base).start;
            commenting_conserves(c.trivia, start);
            expr_conserves(&*spread.base, c.trivia.after_comments(start));
            let base = expr_low(&*spread.base, c.trivia.after_comments(start));
            record_update_args_conserve(arguments@, arguments@.len() as int, base.trivia);
            let args = record_update_args_low(arguments@, arguments@.len() as int, base.trivia);
            buffers_of_a_record_update(
                c.doc,
                crate::trivia::commented_doc(
                    Doc::text(".."@).append(base.doc),
                    c.trivia.comments_upto(start),
                ),
                args.docs,
            );
        },
        _ => {},
    }
}

/// An expression prints the comments it pops, each once.
pub proof fn expr_conserves(e: &UntypedExpr, t: Trivia)
    ensures
        conserves(t, expr_low(e, t)),
    decreases e, 1int,
{
    let t1 = t.after_comments(expr_start(e));
    match e {
        UntypedExpr::Placeholder { .. }
        | UntypedExpr::Panic { .. }
        | UntypedExpr::Todo { .. }
        | UntypedExpr::Var { .. }
        | UntypedExpr::Int { .. }
        | UntypedExpr::Float { .. }
        | UntypedExpr::String { .. } => {
            leaf_conserves(e, t);
        },
        UntypedExpr::PipeLine { expressions } => {
            commenting_conserves(t, expr_start(e));
            pipeline_conserves(expressions@, t1);
        },
        UntypedExpr::Block { .. } => {
            block_conserves(e, t);
        },
        UntypedExpr::TupleIndex { .. } | UntypedExpr::FieldAccess { .. } => {
            access_conserves(e, t);
        },
        UntypedExpr::NegateInt { value, .. } => {
            commenting_conserves(t, expr_start(e));
            negate_int_conserves(&**value, t1);
        },
        UntypedExpr::NegateBool { value, .. } => {
            commenting_conserves(t, expr_start(e));
            negate_bool_conserves(&**value, t1);
        },
        UntypedExpr::Fn { is_capture, body, .. } => {
            commenting_conserves(t, expr_start(e));
            if *is_capture {
                fn_capture_conserves(body@, t1);
            } else {
                expr_fn_conserves(e, t1);
            }
        },
        UntypedExpr::List { .. } => {
            commenting_conserves(t, expr_start(e));
            list_conserves(e, t1);
        },
        UntypedExpr::Call { .. } => {
            commenting_conserves(t, expr_start(e));
            call_conserves(e, t1);
        },
        UntypedExpr::BinOp { .. } => {
            commenting_conserves(t, expr_start(e));
            operation_conserves(e, t1);
        },
        UntypedExpr::Case { .. } => {
            commenting_conserves(t, expr_start(e));
            case_expr_conserves(e, t1);
        },
        UntypedExpr::Tuple { .. } | UntypedExpr::BitArray { .. } => {
            collection_conserves(e, t);
        },
        UntypedExpr::RecordUpdate { .. } => {
            commenting_conserves(t, expr_start(e));
            update_conserves(e, t1);
        },
    }
}

/// A binary operation lowered from its parts prints the comments it pops.
pub proof fn bin_op_conserves(name: BinOp, left: &UntypedExpr, right: &UntypedExpr, t: Trivia)
    ensures
        conserves(t, bin_op_low(name, left, right, t)),
{
    operation_conserves(&operation_of(name, left, right), t);
}

/// A `case` lowered from its parts prints the comments it pops.
pub proof fn case_conserves(subjects: &Vec<UntypedExpr>, clauses: &Vec<Clause>, t: Trivia)
    ensures
        conserves(t, case_low(subjects, clauses, t)),
{
    case_expr_conserves(&case_of(subjects, clauses), t);
}

/// A record update lowered from its parts prints the comments it pops.
pub proof fn record_update_conserves(
    constructor: &UntypedExpr,
    spread: &RecordUpdateSpread,
    args: &Vec<UntypedRecordUpdateArg>,
    t: Trivia,
)
    ensures
        conserves(t, record_update_low(constructor, spread, args, t)),
{
    update_conserves(&update_of(constructor, spread, args), t);
}

} // verus!
