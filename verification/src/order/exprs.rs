//! Expressions and statements say the comments they pop in their order.

use vstd::prelude::*;
use crate::ast::{
    Arg,
    Assignment,
    BinOp,
    BitArrayOption,
    BitArraySegment,
    CallArg,
    Clause,
    ClauseGuard,
    Pattern,
    RecordUpdateSpread,
    Statement,
    UntypedExpr,
    UntypedRecordUpdateArg,
    Use,
    UseAssignment,
};
use crate::expr::{
    alternatives_low,
    assigned_low,
    assignment_low,
    bin_op_low,
    case_expr_low,
    case_of,
    call_arg_low,
    call_args_low,
    call_low,
    case_doc,
    case_low,
    clause_head_doc,
    clause_low,
    clauses_low,
    expr_fn_low,
    expr_low,
    expr_options_low,
    expr_precedence,
    expr_segment_low,
    expr_segments_low,
    expr_segments_simple,
    expr_span,
    expr_start,
    exprs_low,
    exprs_simple,
    fn_arg_low,
    fn_args_low,
    fn_capture_low,
    list_low,
    names_doc,
    negate_bool_low,
    negate_int_low,
    next_position,
    pipe_capture_low,
    pipeline_low,
    record_update_arg_low,
    record_update_args_low,
    record_update_doc,
    operation_low,
    operation_of,
    record_update_low,
    update_low,
    update_of,
    segment_expr_low,
    stages_upto,
    statement_low,
    statement_span,
    statements_low,
    statements_upto,
    use_assignment_low,
    use_assignments_low,
    use_left_doc,
    use_low,
    value_low,
};
use crate::guard::operator_side_doc;
use crate::order::patterns::{
    pattern_follows,
    pattern_keeps_the_comments,
    pattern_within,
    patterns_follow,
};
use crate::order::{
    a_separator_follows,
    after_a_pop,
    after_blank_lines,
    an_option_says,
    as_one,
    blank_lines_follow_all,
    commented_follows,
    commenting_follows,
    concat_says,
    follows,
    follows_all,
    guards_are_quiet,
    join_says,
    no_bare_buffer,
    none_follows,
    one_after_the_other,
    one_more_follows,
    operands_say,
    past,
    quiet,
    quiet_follows,
    quiet_for_all,
    reshaped,
    rest_stays_past,
    said,
    said_all,
    said_of_both,
    said_of_pushed,
    said_step_by_step,
    silent_follows,
    texts_in_order,
    types_say_nothing,
    types_are_quiet,
    wrapped_says,
};
use crate::pattern::{pattern_low, patterns_low};
use crate::pretty::{interspersed, Doc, INDENT};
use crate::segment::option_doc;
use crate::trivia::{commented_doc, Lowered, LoweredAll, Trivia};
use crate::types::type_doc;
use crate::wrap::{bit_array_doc, break_block_doc, comma_doc, wrap_args_doc, wrap_block_doc};

verus! {

/// Whether in every argument every `use` is calm.
pub open spec fn call_args_calm(args: Seq<CallArg<UntypedExpr>>) -> bool
    decreases args, 0int,
{
    forall|i: int| 0 <= i < args.len() ==> expr_calm(&(#[trigger] args[i]).value)
}

/// Whether in every statement every `use` is calm.
pub open spec fn statements_calm(statements: Seq<Statement>) -> bool
    decreases statements, 0int,
{
    forall|i: int| 0 <= i < statements.len() ==> statement_calm(&#[trigger] statements[i])
}

/// A `use` is calm when its patterns, and everything in them, start no later
/// than its call does, as they do in source that was parsed.
pub open spec fn statement_calm(s: &Statement) -> bool
    decreases s, 0int,
{
    match s {
        Statement::Expression(e) => expr_calm(e),
        Statement::Assignment(a) => expr_calm(&*a.value),
        Statement::Use(u) => {
            &&& expr_calm(&*u.call)
            &&& forall|i: int|
                0 <= i < u.assignments@.len() ==> pattern_within(
                    &(#[trigger] u.assignments@[i]).pattern,
                    expr_start(&*u.call),
                )
        },
    }
}

/// Whether in a segment every `use` is calm.
pub open spec fn segment_calm(segment: &BitArraySegment<UntypedExpr>) -> bool
    decreases segment, 0int,
{
    &&& expr_calm(&*segment.value)
    &&& forall|i: int|
        0 <= i < segment.options@.len() ==> (#[trigger] segment.options@[i]
            matches BitArrayOption::Size { value, .. } ==> expr_calm(&*value))
}

/// Whether in an expression every `use` is calm.
pub open spec fn expr_calm(e: &UntypedExpr) -> bool
    decreases e, 1int,
{
    match e {
        UntypedExpr::Placeholder { .. }
        | UntypedExpr::Int { .. }
        | UntypedExpr::Float { .. }
        | UntypedExpr::String { .. }
        | UntypedExpr::Var { .. }
        | UntypedExpr::Todo { .. }
        | UntypedExpr::Panic { .. } => true,
        UntypedExpr::Block { statements, .. } => statements_calm(statements@),
        UntypedExpr::Fn { body, .. } => statements_calm(body@),
        UntypedExpr::List { elements, tail, .. } => {
            &&& forall|i: int| 0 <= i < elements@.len() ==> expr_calm(&#[trigger] elements@[i])
            &&& tail matches Some(tail) ==> expr_calm(&**tail)
        },
        UntypedExpr::Call { fun, arguments, .. } => expr_calm(&**fun) && call_args_calm(
            arguments@,
        ),
        UntypedExpr::BinOp { left, right, .. } => expr_calm(&**left) && expr_calm(&**right),
        UntypedExpr::PipeLine { expressions } => forall|i: int|
            0 <= i < expressions@.len() ==> expr_calm(&#[trigger] expressions@[i]),
        UntypedExpr::Case { subjects, clauses, .. } => {
            &&& forall|i: int| 0 <= i < subjects@.len() ==> expr_calm(&#[trigger] subjects@[i])
            &&& forall|i: int| 0 <= i < clauses@.len() ==> expr_calm(&(#[trigger] clauses@[i]).body)
        },
        UntypedExpr::FieldAccess { container, .. } => expr_calm(&**container),
        UntypedExpr::Tuple { elems, .. } => forall|i: int|
            0 <= i < elems@.len() ==> expr_calm(&#[trigger] elems@[i]),
        UntypedExpr::TupleIndex { tuple, .. } => expr_calm(&**tuple),
        UntypedExpr::BitArray { segments, .. } => forall|i: int|
            0 <= i < segments@.len() ==> segment_calm(&#[trigger] segments@[i]),
        UntypedExpr::RecordUpdate { constructor, spread, arguments, .. } => {
            &&& expr_calm(&**constructor)
            &&& expr_calm(&*spread.base)
            &&& forall|i: int|
                0 <= i < arguments@.len() ==> expr_calm(&(#[trigger] arguments@[i]).value)
        },
        UntypedExpr::NegateBool { value, .. } => expr_calm(&**value),
        UntypedExpr::NegateInt { value, .. } => expr_calm(&**value),
    }
}

proof fn a_case_says(subjects: Seq<Doc>, clauses: Seq<Doc>)
    requires
        no_bare_buffer(subjects),
        no_bare_buffer(clauses),
    ensures
        forall|prefix: Seq<char>| #[trigger]
            said(case_doc(subjects, clauses), prefix) =~= said_all(subjects, prefix) + said_all(
                clauses,
                prefix,
            ),
        !(case_doc(subjects, clauses) is String),
{
    join_says(subjects, Doc::break_(","@, ", "@));
    concat_says(clauses);
    assert forall|prefix: Seq<char>| #[trigger]
        said(case_doc(subjects, clauses), prefix) =~= said_all(subjects, prefix) + said_all(
            clauses,
            prefix,
        ) by {
        reveal_with_fuel(said, 12);
        assert(said(Doc::join(subjects, Doc::break_(","@, ", "@)), prefix) =~= said_all(
            subjects,
            prefix,
        ));
        assert(said(Doc::concat(clauses), prefix) =~= said_all(clauses, prefix));
    }
}

proof fn a_record_update_says(constructor: Doc, spread: Doc, args: Seq<Doc>)
    requires
        !(constructor is String),
        !(spread is String),
        no_bare_buffer(args),
    ensures
        forall|prefix: Seq<char>| #[trigger]
            said(record_update_doc(constructor, spread, args), prefix) =~= said(
                constructor,
                prefix,
            ) + said(spread, prefix) + said_all(args, prefix),
        !(record_update_doc(constructor, spread, args) is String),
{
    let all = seq![spread] + args;
    assert(no_bare_buffer(all)) by {
        assert forall|i: int| 0 <= i < all.len() implies !(#[trigger] all[i] is String) by {
            if i > 0 {
                assert(all[i] == args[i - 1]);
            }
        }
    }
    wrapped_says(all, Doc::Nil, false);
    assert(seq![spread] =~= Seq::<Doc>::empty().push(spread));
    assert forall|prefix: Seq<char>| #[trigger]
        said(record_update_doc(constructor, spread, args), prefix) =~= said(constructor, prefix)
            + said(spread, prefix) + said_all(args, prefix) by {
        reveal_with_fuel(said, 4);
        said_of_both(seq![spread], args, prefix);
        said_of_pushed(Seq::<Doc>::empty(), spread, prefix);
        assert(said(wrap_args_doc(all), prefix) =~= said_all(all, prefix));
    }
}

proof fn a_clause_head_says(patterns: Seq<Doc>, alternatives: Seq<Doc>, guard: Option<ClauseGuard>)
    requires
        no_bare_buffer(patterns),
        no_bare_buffer(alternatives),
    ensures
        forall|prefix: Seq<char>| #[trigger]
            said(clause_head_doc(patterns, alternatives, guard), prefix) =~= said_all(
                patterns,
                prefix,
            ) + said_all(alternatives, prefix),
        !(clause_head_doc(patterns, alternatives, guard) is String),
{
    let first = Doc::join(patterns, Doc::text(", "@));
    join_says(patterns, Doc::text(", "@));
    let all = seq![first] + alternatives;
    assert(no_bare_buffer(all)) by {
        assert forall|i: int| 0 <= i < all.len() implies !(#[trigger] all[i] is String) by {
            if i > 0 {
                assert(all[i] == alternatives[i - 1]);
            }
        }
    }
    let separator = Doc::break_(""@, " "@).append(Doc::text("| "@));
    assert(quiet_for_all(separator)) by {
        reveal_with_fuel(said, 2);
    }
    join_says(all, separator);
    assert(seq![first] =~= Seq::<Doc>::empty().push(first));
    match guard {
        Some(guard) => {
            guards_are_quiet(&guard);
            crate::comments::plain::guards_are_plain(&guard);
            crate::order::plain_is_quiet(crate::guard::guard_doc(&guard));
        },
        None => {},
    }
    assert forall|prefix: Seq<char>| #[trigger]
        said(clause_head_doc(patterns, alternatives, guard), prefix) =~= said_all(
            patterns,
            prefix,
        ) + said_all(alternatives, prefix) by {
        reveal_with_fuel(said, 6);
        said_of_both(seq![first], alternatives, prefix);
        said_of_pushed(Seq::<Doc>::empty(), first, prefix);
        assert(said_all(Seq::<Doc>::empty(), prefix) =~= Seq::empty());
        assert(said(first, prefix) =~= said_all(patterns, prefix));
        assert(said_all(all, prefix) =~= said_all(patterns, prefix) + said_all(
            alternatives,
            prefix,
        ));
        assert(said(Doc::join(all, separator), prefix) =~= said_all(all, prefix));
        let head = Doc::join(all, separator).group();
        assert(said(head, prefix) =~= said_all(all, prefix));
        match guard {
            Some(guard) => {
                assert(said(crate::guard::guard_doc(&guard), prefix) =~= Seq::empty());
                assert(!(crate::guard::guard_doc(&guard) is String));
            },
            None => {},
        }
    }
}

proof fn a_use_left_says(assignments: Seq<Doc>)
    requires
        no_bare_buffer(assignments),
    ensures
        forall|prefix: Seq<char>| #[trigger]
            said(use_left_doc(assignments), prefix) =~= said_all(assignments, prefix),
        !(use_left_doc(assignments) is String),
{
    let head = seq![Doc::text("use"@), Doc::break_(""@, " "@)];
    let rest = interspersed(assignments, Doc::break_(","@, ", "@));
    join_says(assignments, Doc::break_(","@, ", "@));
    crate::order::interspersed_has_no_bare_buffer(assignments, Doc::break_(","@, ", "@));
    assert(no_bare_buffer(head + rest)) by {
        assert forall|i: int| 0 <= i < (head + rest).len() implies !(#[trigger] (head + rest)[i]
            is String) by {
            if i >= 2 {
                assert((head + rest)[i] == rest[i - 2]);
            }
        }
    }
    concat_says(head + rest);
    concat_says(rest);
    assert(head =~= Seq::<Doc>::empty().push(Doc::text("use"@)).push(Doc::break_(""@, " "@)));
    assert forall|prefix: Seq<char>| #[trigger]
        said(use_left_doc(assignments), prefix) =~= said_all(assignments, prefix) by {
        reveal_with_fuel(said, 6);
        said_of_both(head, rest, prefix);
        said_of_pushed(Seq::<Doc>::empty(), Doc::text("use"@), prefix);
        said_of_pushed(Seq::<Doc>::empty().push(Doc::text("use"@)), Doc::break_(""@, " "@), prefix);
        assert(said(Doc::concat(head + rest), prefix) =~= said_all(head + rest, prefix));
        assert(said(Doc::concat(rest), prefix) =~= said_all(rest, prefix));
        assert(said(Doc::concat(rest), prefix) =~= said_all(assignments, prefix));
    }
}

/// The parameter of a function says the comments it pops in their order.
pub proof fn fn_arg_follows(arg: &Arg, t: Trivia)
    requires
        t.ordered(),
    ensures
        follows(t, fn_arg_low(arg, t)),
{
    let start = arg.location.start;
    after_a_pop(t, start);
    let doc = (match arg.annotation {
        None => names_doc(&arg.names),
        Some(annotation) => names_doc(&arg.names).append(Doc::text(": "@)).append(
            type_doc(&annotation),
        ),
    }).group();
    match arg.annotation {
        Some(annotation) => {
            types_are_quiet(&annotation);
        },
        None => {},
    }
    assert(quiet(doc)) by {
        reveal_with_fuel(said, 6);
    }
    quiet_follows(t.after_comments(start), doc);
    commented_follows(t, start, Lowered { doc, trivia: t.after_comments(start) });
}

/// The parameters of a function say the comments they pop in their order.
pub proof fn fn_args_follow(args: Seq<Arg>, n: int, t: Trivia)
    requires
        t.ordered(),
    ensures
        follows_all(t, fn_args_low(args, n, t)),
    decreases n,
{
    if !(n <= 0 || n > args.len()) {
        fn_args_follow(args, n - 1, t);
        let before = fn_args_low(args, n - 1, t);
        fn_arg_follows(&args[n - 1], before.trivia);
        one_more_follows(t, before, fn_arg_low(&args[n - 1], before.trivia));
    } else {
        none_follows(t);
    }
}

proof fn use_assignment_follows(assignment: &UseAssignment, t: Trivia)
    requires
        t.ordered(),
    ensures
        follows(t, use_assignment_low(assignment, t)),
{
    pattern_follows(&assignment.pattern, t);
    let pattern = pattern_low(&assignment.pattern, t);
    match assignment.annotation {
        Some(annotation) => {
            types_are_quiet(&annotation);
        },
        None => {},
    }
    let annotation = match assignment.annotation {
        Some(annotation) => Doc::text(": "@).append(type_doc(&annotation)),
        None => Doc::Nil,
    };
    let doc = pattern.doc.append(annotation).group();
    assert(doc == use_assignment_low(assignment, t).doc);
    assert forall|prefix: Seq<char>| #[trigger] said(doc, prefix) =~= said(pattern.doc, prefix) by {
        match assignment.annotation {
            Some(a) => {
                crate::comments::plain::types_are_plain(&a);
                crate::order::plain_is_quiet(type_doc(&a));
                assert(said(type_doc(&a), prefix) =~= Seq::empty());
                assert(!(type_doc(&a) is String));
                assert(said(annotation, prefix) =~= Seq::empty()) by {
                    reveal_with_fuel(said, 2);
                }
            },
            None => {
                assert(said(annotation, prefix) =~= Seq::empty());
            },
        }
        assert(said(pattern.doc.append(annotation), prefix) =~= said(pattern.doc, prefix) + said(
            annotation,
            prefix,
        ));
        assert(said(doc, prefix) =~= said(pattern.doc.append(annotation), prefix));
    }
    reshaped(t, pattern, doc);
}

proof fn use_assignments_follow(assignments: Seq<UseAssignment>, n: int, t: Trivia)
    requires
        t.ordered(),
    ensures
        follows_all(t, use_assignments_low(assignments, n, t)),
    decreases n,
{
    if !(n <= 0 || n > assignments.len()) {
        use_assignments_follow(assignments, n - 1, t);
        let before = use_assignments_low(assignments, n - 1, t);
        use_assignment_follows(&assignments[n - 1], before.trivia);
        one_more_follows(t, before, use_assignment_low(&assignments[n - 1], before.trivia));
    } else {
        none_follows(t);
    }
}

/// The patterns of a calm `use` pop no comment.
proof fn use_assignments_keep_the_comments(
    assignments: Seq<UseAssignment>,
    n: int,
    t: Trivia,
    limit: u32,
)
    requires
        t.ordered(),
        past(t.comments, limit),
        forall|i: int|
            0 <= i < assignments.len() ==> pattern_within(
                &(#[trigger] assignments[i]).pattern,
                limit,
            ),
    ensures
        use_assignments_low(assignments, n, t).trivia.comments == t.comments,
    decreases n,
{
    if !(n <= 0 || n > assignments.len()) {
        use_assignments_keep_the_comments(assignments, n - 1, t, limit);
        use_assignments_follow(assignments, n - 1, t);
        let before = use_assignments_low(assignments, n - 1, t);
        assert(pattern_within(&assignments[n - 1].pattern, limit));
        pattern_keeps_the_comments(&assignments[n - 1].pattern, before.trivia, limit);
        let next = use_assignment_low(&assignments[n - 1], before.trivia);
        assert(next.trivia == pattern_low(&assignments[n - 1].pattern, before.trivia).trivia);
        assert(use_assignments_low(assignments, n, t).trivia == next.trivia);
    }
}

proof fn alternatives_follow(alternatives: Seq<Vec<Pattern>>, n: int, t: Trivia)
    requires
        t.ordered(),
    ensures
        follows_all(t, alternatives_low(alternatives, n, t)),
    decreases n,
{
    if !(n <= 0 || n > alternatives.len()) {
        alternatives_follow(alternatives, n - 1, t);
        let before = alternatives_low(alternatives, n - 1, t);
        let patterns = alternatives[n - 1]@;
        patterns_follow(patterns, patterns.len() as int, before.trivia);
        let next = patterns_low(patterns, patterns.len() as int, before.trivia);
        let doc = Doc::join(next.docs, Doc::text(", "@));
        join_says(next.docs, Doc::text(", "@));
        as_one(before.trivia, next, doc);
        one_more_follows(t, before, Lowered { doc, trivia: next.trivia });
    } else {
        none_follows(t);
    }
}

/// A list of expressions says the comments it pops in their order.
pub proof fn exprs_follow(exprs: Seq<UntypedExpr>, n: int, t: Trivia)
    requires
        t.ordered(),
        forall|i: int| 0 <= i < exprs.len() ==> expr_calm(&#[trigger] exprs[i]),
    ensures
        follows_all(t, exprs_low(exprs, n, t)),
    decreases exprs, n,
{
    if !(n <= 0 || n > exprs.len()) {
        exprs_follow(exprs, n - 1, t);
        let before = exprs_low(exprs, n - 1, t);
        expr_follows(&exprs[n - 1], before.trivia);
        one_more_follows(t, before, expr_low(&exprs[n - 1], before.trivia));
    } else {
        none_follows(t);
    }
}

proof fn call_arg_follows(arg: &CallArg<UntypedExpr>, t: Trivia)
    requires
        t.ordered(),
        expr_calm(&arg.value),
    ensures
        follows(t, call_arg_low(arg, t)),
    decreases arg, 0int,
{
    let doc = call_arg_low(arg, t).doc;
    match arg.label {
        Some(label) => {
            let start = arg.location.start;
            after_a_pop(t, start);
            let t1 = t.after_comments(start);
            let plain_label = Doc::text(label@).append(Doc::text(": "@));
            assert(quiet_for_all(plain_label)) by {
                said_step_by_step();
            }
            silent_follows(t1, plain_label);
            commented_follows(t, start, Lowered { doc: plain_label, trivia: t1 });
            let first = Lowered { doc: commented_doc(plain_label, t.comments_upto(start)), trivia: t1 };
            expr_follows(&arg.value, t1);
            let value = expr_low(&arg.value, t1);
            assert forall|prefix: Seq<char>| #[trigger]
                said(doc, prefix) =~= said(first.doc, prefix) + said(value.doc, prefix) by {
                said_step_by_step();
            }
            one_after_the_other(t, first, value, doc);
        },
        None => {
            expr_follows(&arg.value, t);
            let value = expr_low(&arg.value, t);
            assert forall|prefix: Seq<char>| #[trigger]
                said(doc, prefix) =~= said(value.doc, prefix) by {
                said_step_by_step();
            }
            reshaped(t, value, doc);
        },
    }
}

proof fn call_args_follow(args: Seq<CallArg<UntypedExpr>>, from: int, n: int, t: Trivia)
    requires
        t.ordered(),
        call_args_calm(args),
    ensures
        follows_all(t, call_args_low(args, from, n, t)),
    decreases args, n,
{
    if !(n <= from || from < 0 || n > args.len()) {
        call_args_follow(args, from, n - 1, t);
        let before = call_args_low(args, from, n - 1, t);
        assert(expr_calm(&args[n - 1].value));
        call_arg_follows(&args[n - 1], before.trivia);
        one_more_follows(t, before, call_arg_low(&args[n - 1], before.trivia));
    } else {
        none_follows(t);
    }
}

proof fn record_update_arg_follows(arg: &UntypedRecordUpdateArg, t: Trivia)
    requires
        t.ordered(),
        expr_calm(&arg.value),
    ensures
        follows(t, record_update_arg_low(arg, t)),
    decreases arg, 0int,
{
    let start = arg.location.start;
    after_a_pop(t, start);
    let t1 = t.after_comments(start);
    expr_follows(&arg.value, t1);
    let value = expr_low(&arg.value, t1);
    let doc = Doc::text(arg.label@).append(Doc::text(": "@)).append(value.doc);
    assert forall|prefix: Seq<char>| #[trigger] said(doc, prefix) =~= said(value.doc, prefix) by {
        said_step_by_step();
    }
    reshaped(t1, value, doc);
    commented_follows(t, start, Lowered { doc, trivia: value.trivia });
}

proof fn record_update_args_follow(args: Seq<UntypedRecordUpdateArg>, n: int, t: Trivia)
    requires
        t.ordered(),
        forall|i: int| 0 <= i < args.len() ==> expr_calm(&(#[trigger] args[i]).value),
    ensures
        follows_all(t, record_update_args_low(args, n, t)),
    decreases args, n,
{
    if !(n <= 0 || n > args.len()) {
        record_update_args_follow(args, n - 1, t);
        let before = record_update_args_low(args, n - 1, t);
        assert(expr_calm(&args[n - 1].value));
        record_update_arg_follows(&args[n - 1], before.trivia);
        one_more_follows(t, before, record_update_arg_low(&args[n - 1], before.trivia));
    } else {
        none_follows(t);
    }
}

proof fn segment_expr_follows(e: &UntypedExpr, t: Trivia)
    requires
        t.ordered(),
        expr_calm(e),
    ensures
        follows(t, segment_expr_low(e, t)),
    decreases e, 2int,
{
    expr_follows(e, t);
    let inner = expr_low(e, t);
    wrapped_says(Seq::empty(), inner.doc, false);
    if e is BinOp {
        reshaped(t, inner, wrap_block_doc(inner.doc));
    }
}

proof fn expr_options_follow(options: Seq<BitArrayOption<UntypedExpr>>, n: int, t: Trivia)
    requires
        t.ordered(),
        forall|i: int|
            0 <= i < options.len() ==> (#[trigger] options[i] matches BitArrayOption::Size {
                value,
                ..
            } ==> expr_calm(&*value)),
    ensures
        follows_all(t, expr_options_low(options, n, t)),
    decreases options, n,
{
    if !(n <= 0 || n > options.len()) {
        expr_options_follow(options, n - 1, t);
        let before = expr_options_low(options, n - 1, t);
        let inner = match options[n - 1] {
            BitArrayOption::Size { value, .. } => segment_expr_low(&*value, before.trivia),
            _ => Lowered { doc: Doc::Nil, trivia: before.trivia },
        };
        match options[n - 1] {
            BitArrayOption::Size { value, .. } => {
                segment_expr_follows(&*value, before.trivia);
            },
            _ => {
                quiet_follows(before.trivia, Doc::Nil);
            },
        }
        an_option_says(&options[n - 1], inner.doc);
        reshaped(before.trivia, inner, option_doc(&options[n - 1], inner.doc));
        one_more_follows(
            t,
            before,
            Lowered { doc: option_doc(&options[n - 1], inner.doc), trivia: inner.trivia },
        );
    } else {
        none_follows(t);
    }
}

proof fn expr_segment_follows(segment: &BitArraySegment<UntypedExpr>, t: Trivia)
    requires
        t.ordered(),
        segment_calm(segment),
    ensures
        follows(t, expr_segment_low(segment, t)),
    decreases segment, 0int,
{
    segment_expr_follows(&*segment.value, t);
    if segment.options@.len() != 0 {
        let value = segment_expr_low(&*segment.value, t);
        expr_options_follow(segment.options@, segment.options@.len() as int, value.trivia);
        let options = expr_options_low(
            segment.options@,
            segment.options@.len() as int,
            value.trivia,
        );
        let joined = Doc::join(options.docs, Doc::text("-"@));
        join_says(options.docs, Doc::text("-"@));
        as_one(value.trivia, options, joined);
        let doc = expr_segment_low(segment, t).doc;
        assert forall|prefix: Seq<char>| #[trigger]
            said(doc, prefix) =~= said(value.doc, prefix) + said(joined, prefix) by {
            said_step_by_step();
        }
        one_after_the_other(t, value, Lowered { doc: joined, trivia: options.trivia }, doc);
    }
}

proof fn expr_segments_follow(segments: Seq<BitArraySegment<UntypedExpr>>, n: int, t: Trivia)
    requires
        t.ordered(),
        forall|i: int| 0 <= i < segments.len() ==> segment_calm(&#[trigger] segments[i]),
    ensures
        follows_all(t, expr_segments_low(segments, n, t)),
    decreases segments, n,
{
    if !(n <= 0 || n > segments.len()) {
        expr_segments_follow(segments, n - 1, t);
        let before = expr_segments_low(segments, n - 1, t);
        expr_segment_follows(&segments[n - 1], before.trivia);
        one_more_follows(t, before, expr_segment_low(&segments[n - 1], before.trivia));
    } else {
        none_follows(t);
    }
}

proof fn statements_upto_follow(statements: Seq<Statement>, n: int, t: Trivia)
    requires
        t.ordered(),
        statements_calm(statements),
    ensures
        follows_all(t, statements_upto(statements, n, t)),
    decreases statements, n,
{
    if !(n <= 0 || n > statements.len()) {
        statements_upto_follow(statements, n - 1, t);
        let before = statements_upto(statements, n - 1, t);
        let previous: u32 = if n == 1 {
            0
        } else {
            statement_span(&statements[n - 2]).end
        };
        let limit = next_position(previous);
        blank_lines_follow_all(t, before, limit);
        let t1 = before.trivia.after_empty_lines(limit);
        statement_follows(&statements[n - 1], t1);
        let next = statement_low(&statements[n - 1], t1);
        a_separator_follows(
            t,
            LoweredAll { docs: before.docs, trivia: t1 },
            Doc::lines(2),
        );
        a_separator_follows(
            t,
            LoweredAll { docs: before.docs, trivia: t1 },
            Doc::lines(1),
        );
        let docs = if n == 1 {
            before.docs
        } else if before.trivia.blank_upto(limit) {
            before.docs.push(Doc::lines(2))
        } else {
            before.docs.push(Doc::lines(1))
        };
        reshaped(t1, next, next.doc.group());
        one_more_follows(
            t,
            LoweredAll { docs, trivia: t1 },
            Lowered { doc: next.doc.group(), trivia: next.trivia },
        );
    } else {
        none_follows(t);
    }
}

/// A sequence of statements says the comments it pops in their order.
pub proof fn statements_follow(statements: Seq<Statement>, t: Trivia)
    requires
        t.ordered(),
        statements_calm(statements),
    ensures
        follows(t, statements_low(statements, t)),
    decreases statements, statements.len() + 1,
{
    statements_upto_follow(statements, statements.len() as int, t);
    let all = statements_upto(statements, statements.len() as int, t);
    concat_says(all.docs);
    let doc = statements_low(statements, t).doc;
    assert forall|prefix: Seq<char>| #[trigger] said(doc, prefix) =~= said_all(all.docs, prefix) by {
        said_step_by_step();
        assert(said(Doc::concat(all.docs), prefix) =~= said_all(all.docs, prefix));
    }
    as_one(t, all, doc);
}

proof fn statement_follows(s: &Statement, t: Trivia)
    requires
        t.ordered(),
        statement_calm(s),
    ensures
        follows(t, statement_low(s, t)),
    decreases s, 0int,
{
    match s {
        Statement::Expression(e) => {
            expr_follows(e, t);
        },
        Statement::Assignment(a) => {
            assignment_follows(a, t);
        },
        Statement::Use(u) => {
            use_follows(u, t);
        },
    }
}

proof fn assignment_follows(a: &Assignment, t: Trivia)
    requires
        t.ordered(),
        expr_calm(&*a.value),
    ensures
        follows(t, assignment_low(a, t)),
    decreases a, 0int,
{
    let start = a.location.start;
    after_a_pop(t, start);
    let t1 = t.after_comments(start);
    after_a_pop(t1, a.pattern.span().end);
    let t2 = t1.after_empty_lines(a.pattern.span().end);
    pattern_follows(&a.pattern, t2);
    let pattern = pattern_low(&a.pattern, t2);
    match a.annotation {
        Some(annotation) => {
            types_say_nothing(&annotation);
        },
        None => {},
    }
    assigned_follows(&*a.value, pattern.trivia);
    let value = assigned_low(&*a.value, pattern.trivia);
    let keyword = match a.kind {
        crate::ast::AssignmentKind::Let => "let "@,
        crate::ast::AssignmentKind::Assert => "let assert "@,
    };
    let annotation = match a.annotation {
        Some(annotation) => Doc::text(": "@).append(type_doc(&annotation)),
        None => Doc::Nil,
    };
    let doc = Doc::text(keyword).append(pattern.doc.append(annotation).group()).append(
        Doc::text(" ="@),
    ).append(value.doc);
    assert forall|prefix: Seq<char>| #[trigger]
        said(doc, prefix) =~= said(pattern.doc, prefix) + said(value.doc, prefix) by {
        said_step_by_step();
        assert(said(annotation, prefix) =~= Seq::empty());
    }
    one_after_the_other(t2, pattern, value, doc);
    after_blank_lines(t1, a.pattern.span().end, Lowered { doc, trivia: value.trivia });
    commented_follows(t, start, Lowered { doc, trivia: value.trivia });
}

/// The document of the call of a `use`.
spec fn use_call_doc(is_call: bool, call: Doc) -> Doc {
    (if is_call {
        Doc::text(" "@).append(call)
    } else {
        Doc::break_(""@, " "@).append(call).nest(INDENT as nat)
    }).group()
}

/// A `use` without patterns from its lowered call.
proof fn a_bare_use_follows(t: Trivia, is_call: bool, call: Lowered)
    requires
        follows(t, call),
    ensures
        follows(
            t,
            Lowered {
                doc: Doc::text("use <-"@).append(use_call_doc(is_call, call.doc)),
                trivia: call.trivia,
            },
        ),
{
    let doc = Doc::text("use <-"@).append(use_call_doc(is_call, call.doc));
    assert forall|prefix: Seq<char>| #[trigger] said(doc, prefix) =~= said(call.doc, prefix) by {
        said_step_by_step();
    }
    reshaped(t, call, doc);
}

/// A `use` from its lowered call and its lowered patterns, where the
/// patterns popped nothing.
proof fn a_use_follows(t: Trivia, is_call: bool, call: Lowered, assignments: LoweredAll)
    requires
        follows(t, call),
        follows_all(call.trivia, assignments),
        assignments.trivia.comments == call.trivia.comments,
        assignments.trivia.doc_comments == call.trivia.doc_comments,
    ensures
        follows(
            t,
            Lowered {
                doc: use_left_doc(assignments.docs).append(Doc::text("<-"@)).append(
                    use_call_doc(is_call, call.doc),
                ).group(),
                trivia: assignments.trivia,
            },
        ),
{
    let call_doc = use_call_doc(is_call, call.doc);
    let left = use_left_doc(assignments.docs);
    let doc = left.append(Doc::text("<-"@)).append(call_doc).group();
    a_use_left_says(assignments.docs);
    assert(said_all(assignments.docs, "//"@).len() == 0) by {
        assert(texts_in_order(call.trivia.comments).len() == said_all(
            assignments.docs,
            "//"@,
        ).len() + texts_in_order(assignments.trivia.comments).len());
    }
    assert(said_all(assignments.docs, "///"@).len() == 0) by {
        assert(texts_in_order(call.trivia.doc_comments).len() == said_all(
            assignments.docs,
            "///"@,
        ).len() + texts_in_order(assignments.trivia.doc_comments).len());
    }
    assert forall|prefix: Seq<char>| #[trigger]
        said(doc, prefix) =~= said(left, prefix) + said(call.doc, prefix) by {
        said_step_by_step();
    }
    assert(said(left, "//"@) =~= said_all(assignments.docs, "//"@));
    assert(said(left, "///"@) =~= said_all(assignments.docs, "///"@));
    assert(said(left, "////"@) =~= said_all(assignments.docs, "////"@));
    assert(said(doc, "//"@) =~= said(call.doc, "//"@));
    assert(said(doc, "///"@) =~= said(call.doc, "///"@));
    assert(said(doc, "////"@) =~= Seq::<Seq<char>>::empty());
}

proof fn use_follows(u: &Use, t: Trivia)
    requires
        t.ordered(),
        statement_calm(&Statement::Use(*u)),
    ensures
        follows(t, use_low(u, t)),
    decreases u, 0int,
{
    let start = u.location.start;
    after_a_pop(t, start);
    let t1 = t.after_comments(start);
    expr_follows(&*u.call, t1);
    let call = expr_low(&*u.call, t1);
    let is_call = *u.call is Call;
    if u.assignments@.len() == 0 {
        a_bare_use_follows(t1, is_call, call);
        commented_follows(
            t,
            start,
            Lowered {
                doc: Doc::text("use <-"@).append(use_call_doc(is_call, call.doc)),
                trivia: call.trivia,
            },
        );
    } else {
        let limit = expr_start(&*u.call);
        use_assignments_follow(u.assignments@, u.assignments@.len() as int, call.trivia);
        use_assignments_keep_the_comments(
            u.assignments@,
            u.assignments@.len() as int,
            call.trivia,
            limit,
        );
        patterns_take_no_doc_comment(u.assignments@, u.assignments@.len() as int, call.trivia);
        let assignments = use_assignments_low(
            u.assignments@,
            u.assignments@.len() as int,
            call.trivia,
        );
        a_use_follows(t1, is_call, call, assignments);
        commented_follows(
            t,
            start,
            Lowered {
                doc: use_left_doc(assignments.docs).append(Doc::text("<-"@)).append(
                    use_call_doc(is_call, call.doc),
                ).group(),
                trivia: assignments.trivia,
            },
        );
    }
}

/// The patterns of a `use` leave the doc comments where they are.
proof fn patterns_take_no_doc_comment(assignments: Seq<UseAssignment>, n: int, t: Trivia)
    ensures
        use_assignments_low(assignments, n, t).trivia.doc_comments == t.doc_comments,
    decreases n,
{
    if !(n <= 0 || n > assignments.len()) {
        patterns_take_no_doc_comment(assignments, n - 1, t);
        let before = use_assignments_low(assignments, n - 1, t);
        crate::order::patterns::pattern_takes_no_doc_comment(
            &assignments[n - 1].pattern,
            before.trivia,
        );
    }
}

proof fn expr_fn_follows(e: &UntypedExpr, t: Trivia)
    requires
        t.ordered(),
        expr_calm(e),
    ensures
        follows(t, expr_fn_low(e, t)),
    decreases e, 0int,
{
    match e {
        UntypedExpr::Fn { arguments, body, return_annotation, .. } => {
            fn_args_follow(arguments@, arguments@.len() as int, t);
            let args = fn_args_low(arguments@, arguments@.len() as int, t);
            wrapped_says(args.docs, Doc::Nil, false);
            let wrapped = wrap_args_doc(args.docs);
            as_one(t, args, wrapped);
            statements_follow(body@, args.trivia);
            let inner = statements_low(body@, args.trivia);
            wrapped_says(Seq::empty(), inner.doc, false);
            match return_annotation {
                Some(annotation) => {
                    types_say_nothing(annotation);
                },
                None => {},
            }
            let doc = expr_fn_low(e, t).doc;
            assert forall|prefix: Seq<char>| #[trigger]
                said(doc, prefix) =~= said(wrapped, prefix) + said(inner.doc, prefix) by {
                said_step_by_step();
                assert(said(wrap_block_doc(inner.doc), prefix) =~= said(inner.doc, prefix));
            }
            one_after_the_other(t, Lowered { doc: wrapped, trivia: args.trivia }, inner, doc);
        },
        _ => {
            quiet_follows(t, Doc::Nil);
        },
    }
}

proof fn list_follows(e: &UntypedExpr, t: Trivia)
    requires
        t.ordered(),
        expr_calm(e),
    ensures
        follows(t, list_low(e, t)),
    decreases e, 0int,
{
    match e {
        UntypedExpr::List { elements, tail, .. } => {
            if elements@.len() == 0 {
                match tail {
                    Some(tail) => {
                        expr_follows(&**tail, t);
                    },
                    None => {
                        quiet_follows(t, Doc::text("[]"@));
                    },
                }
            } else {
                let simple = tail is None && exprs_simple(elements@, elements@.len() as int);
                exprs_follow(elements@, elements@.len() as int, t);
                let items = exprs_low(elements@, elements@.len() as int, t);
                wrapped_says(Seq::empty(), Doc::Nil, simple);
                assert(quiet_for_all(comma_doc(simple))) by {
                    said_step_by_step();
                }
                let joined = Doc::join(items.docs, comma_doc(simple));
                join_says(items.docs, comma_doc(simple));
                as_one(t, items, joined);
                let first = Lowered { doc: joined, trivia: items.trivia };
                let doc = list_low(e, t).doc;
                match tail {
                    None => {
                        assert forall|prefix: Seq<char>| #[trigger]
                            said(doc, prefix) =~= said(joined, prefix) by {
                            said_step_by_step();
                        }
                        reshaped(t, first, doc);
                    },
                    Some(tail) => {
                        let start = expr_span(&**tail).start;
                        after_a_pop(items.trivia, start);
                        let after = items.trivia.after_comments(start);
                        expr_follows(&**tail, after);
                        let inner = expr_low(&**tail, after);
                        let rest = Doc::text(".."@).append(inner.doc);
                        assert forall|prefix: Seq<char>| #[trigger]
                            said(rest, prefix) =~= said(inner.doc, prefix) by {
                            said_step_by_step();
                        }
                        reshaped(after, inner, rest);
                        commented_follows(
                            items.trivia,
                            start,
                            Lowered { doc: rest, trivia: inner.trivia },
                        );
                        let second = Lowered {
                            doc: commented_doc(rest, items.trivia.comments_upto(start)),
                            trivia: inner.trivia,
                        };
                        assert forall|prefix: Seq<char>| #[trigger]
                            said(doc, prefix) =~= said(joined, prefix) + said(second.doc, prefix) by {
                            said_step_by_step();
                        }
                        one_after_the_other(t, first, second, doc);
                    },
                }
            }
        },
        _ => {
            quiet_follows(t, Doc::Nil);
        },
    }
}

proof fn call_follows(e: &UntypedExpr, t: Trivia)
    requires
        t.ordered(),
        expr_calm(e),
    ensures
        follows(t, call_low(e, t)),
    decreases e, 0int,
{
    match e {
        UntypedExpr::Call { fun, arguments, .. } => {
            expr_follows(&**fun, t);
            let f = expr_low(&**fun, t);
            wrapped_says(Seq::empty(), f.doc, false);
            let head = if **fun is PipeLine {
                break_block_doc(f.doc)
            } else {
                f.doc
            };
            reshaped(t, f, head);
            let first = Lowered { doc: head, trivia: f.trivia };
            let doc = call_low(e, t).doc;
            assert(call_args_calm(arguments@));
            if arguments@.len() == 1 && crate::expr::expr_breakable(&arguments@[0].value)
                && !f.trivia.any_comments(arguments@[0].location.start) {
                assert(expr_calm(&arguments@[0].value));
                call_arg_follows(&arguments@[0], f.trivia);
                let arg = call_arg_low(&arguments@[0], f.trivia);
                assert forall|prefix: Seq<char>| #[trigger]
                    said(doc, prefix) =~= said(head, prefix) + said(arg.doc, prefix) by {
                    said_step_by_step();
                }
                one_after_the_other(t, first, arg, doc);
            } else {
                call_args_follow(arguments@, 0, arguments@.len() as int, f.trivia);
                let args = call_args_low(arguments@, 0, arguments@.len() as int, f.trivia);
                wrapped_says(args.docs, Doc::Nil, false);
                let wrapped = wrap_args_doc(args.docs).group();
                assert forall|prefix: Seq<char>| #[trigger]
                    said(wrapped, prefix) =~= said_all(args.docs, prefix) by {
                    said_step_by_step();
                    assert(said(wrap_args_doc(args.docs), prefix) =~= said_all(args.docs, prefix));
                }
                as_one(f.trivia, args, wrapped);
                assert forall|prefix: Seq<char>| #[trigger]
                    said(doc, prefix) =~= said(head, prefix) + said(wrapped, prefix) by {
                    said_step_by_step();
                }
                one_after_the_other(t, first, Lowered { doc: wrapped, trivia: args.trivia }, doc);
            }
        },
        _ => {
            quiet_follows(t, Doc::Nil);
        },
    }
}

proof fn clause_follows(clause: &Clause, first: bool, t: Trivia)
    requires
        t.ordered(),
        expr_calm(&clause.body),
    ensures
        follows(t, clause_low(clause, first, t)),
    decreases clause, 0int,
{
    let start = clause.location.start;
    after_a_pop(t, start);
    let t1 = t.after_empty_lines(start);
    after_a_pop(t1, start);
    let t2 = t1.after_comments(start);
    patterns_follow(clause.pattern@, clause.pattern@.len() as int, t2);
    let patterns = patterns_low(clause.pattern@, clause.pattern@.len() as int, t2);
    alternatives_follow(
        clause.alternative_patterns@,
        clause.alternative_patterns@.len() as int,
        patterns.trivia,
    );
    let alternatives = alternatives_low(
        clause.alternative_patterns@,
        clause.alternative_patterns@.len() as int,
        patterns.trivia,
    );
    let joined = Doc::join(patterns.docs, Doc::text(", "@));
    join_says(patterns.docs, Doc::text(", "@));
    as_one(t2, patterns, joined);
    let others = Doc::concat(alternatives.docs);
    concat_says(alternatives.docs);
    as_one(patterns.trivia, alternatives, others);
    let plain_head = clause_head_doc(patterns.docs, alternatives.docs, clause.guard);
    a_clause_head_says(patterns.docs, alternatives.docs, clause.guard);
    assert forall|prefix: Seq<char>| #[trigger]
        said(plain_head, prefix) =~= said(joined, prefix) + said(others, prefix) by {
        assert(said(joined, prefix) =~= said_all(patterns.docs, prefix));
        assert(said(others, prefix) =~= said_all(alternatives.docs, prefix));
    }
    one_after_the_other(
        t2,
        Lowered { doc: joined, trivia: patterns.trivia },
        Lowered { doc: others, trivia: alternatives.trivia },
        plain_head,
    );
    commented_follows(t1, start, Lowered { doc: plain_head, trivia: alternatives.trivia });
    let head = commented_doc(plain_head, t1.comments_upto(start));
    let shown = if first {
        head
    } else if t.blank_upto(start) {
        Doc::lines(2).append(head)
    } else {
        Doc::lines(1).append(head)
    };
    assert forall|prefix: Seq<char>| #[trigger] said(shown, prefix) =~= said(head, prefix) by {
        said_step_by_step();
    }
    reshaped(t1, Lowered { doc: head, trivia: alternatives.trivia }, shown);
    value_follows(&clause.body, alternatives.trivia);
    let value = value_low(&clause.body, alternatives.trivia);
    let doc = shown.append(Doc::text(" ->"@)).append(value.doc);
    assert forall|prefix: Seq<char>| #[trigger]
        said(doc, prefix) =~= said(shown, prefix) + said(value.doc, prefix) by {
        said_step_by_step();
    }
    one_after_the_other(t1, Lowered { doc: shown, trivia: alternatives.trivia }, value, doc);
    after_blank_lines(t, start, Lowered { doc, trivia: value.trivia });
}

proof fn clauses_follow(clauses: Seq<Clause>, n: int, t: Trivia)
    requires
        t.ordered(),
        forall|i: int| 0 <= i < clauses.len() ==> expr_calm(&(#[trigger] clauses[i]).body),
    ensures
        follows_all(t, clauses_low(clauses, n, t)),
    decreases clauses, n,
{
    if !(n <= 0 || n > clauses.len()) {
        clauses_follow(clauses, n - 1, t);
        let before = clauses_low(clauses, n - 1, t);
        assert(expr_calm(&clauses[n - 1].body));
        clause_follows(&clauses[n - 1], n == 1, before.trivia);
        one_more_follows(t, before, clause_low(&clauses[n - 1], n == 1, before.trivia));
    } else {
        none_follows(t);
    }
}

proof fn value_follows(e: &UntypedExpr, t: Trivia)
    requires
        t.ordered(),
        expr_calm(e),
    ensures
        follows(t, value_low(e, t)),
    decreases e, 2int,
{
    let doc = value_low(e, t).doc;
    match e {
        UntypedExpr::Block { statements, .. } => {
            statements_follow(statements@, t);
            let inner = statements_low(statements@, t);
            assert forall|prefix: Seq<char>| #[trigger]
                said(doc, prefix) =~= said(inner.doc, prefix) by {
                said_step_by_step();
            }
            reshaped(t, inner, doc);
        },
        _ => {
            expr_follows(e, t);
            let inner = expr_low(e, t);
            assert forall|prefix: Seq<char>| #[trigger]
                said(doc, prefix) =~= said(inner.doc, prefix) by {
                said_step_by_step();
            }
            reshaped(t, inner, doc);
        },
    }
}

proof fn assigned_follows(e: &UntypedExpr, t: Trivia)
    requires
        t.ordered(),
        expr_calm(e),
    ensures
        follows(t, assigned_low(e, t)),
    decreases e, 3int,
{
    if e is Case {
        expr_follows(e, t);
        let inner = expr_low(e, t);
        let doc = assigned_low(e, t).doc;
        assert forall|prefix: Seq<char>| #[trigger]
            said(doc, prefix) =~= said(inner.doc, prefix) by {
            said_step_by_step();
        }
        reshaped(t, inner, doc);
    } else {
        value_follows(e, t);
    }
}

proof fn pipe_capture_follows(e: &UntypedExpr, t: Trivia)
    requires
        t.ordered(),
        expr_calm(e),
    ensures
        follows(t, pipe_capture_low(e, t)),
    decreases e, 0int,
{
    match e {
        UntypedExpr::Call { fun, arguments, .. } => {
            let hole_first = arguments@.len() > 0 && crate::expr::is_hole(&arguments@[0].value);
            expr_follows(&**fun, t);
            let f = expr_low(&**fun, t);
            assert(call_args_calm(arguments@));
            if !(hole_first && arguments@.len() == 1) {
                let from: int = if hole_first {
                    1
                } else {
                    0
                };
                call_args_follow(arguments@, from, arguments@.len() as int, f.trivia);
                let args = call_args_low(arguments@, from, arguments@.len() as int, f.trivia);
                wrapped_says(args.docs, Doc::Nil, false);
                let wrapped = wrap_args_doc(args.docs).group();
                assert forall|prefix: Seq<char>| #[trigger]
                    said(wrapped, prefix) =~= said_all(args.docs, prefix) by {
                    said_step_by_step();
                    assert(said(wrap_args_doc(args.docs), prefix) =~= said_all(args.docs, prefix));
                }
                as_one(f.trivia, args, wrapped);
                let doc = f.doc.append(wrapped);
                assert forall|prefix: Seq<char>| #[trigger]
                    said(doc, prefix) =~= said(f.doc, prefix) + said(wrapped, prefix) by {
                    said_step_by_step();
                }
                one_after_the_other(t, f, Lowered { doc: wrapped, trivia: args.trivia }, doc);
            }
        },
        _ => {
            quiet_follows(t, Doc::Nil);
        },
    }
}

/// What a capture as a stage of a pipeline gives.
spec fn capture_stage_low(body: Seq<Statement>, t: Trivia) -> Lowered {
    if body.len() > 0 {
        match body[0] {
            Statement::Expression(inner) => pipe_capture_low(&inner, t),
            _ => Lowered { doc: Doc::Nil, trivia: t },
        }
    } else {
        Lowered { doc: Doc::Nil, trivia: t }
    }
}

/// What a stage of a pipeline after the first gives.
spec fn stage_low(e: &UntypedExpr, t: Trivia) -> Lowered {
    match e {
        UntypedExpr::Fn { is_capture: true, body, .. } => capture_stage_low(body@, t),
        _ => expr_low(e, t),
    }
}

proof fn capture_stage_follows(body: Seq<Statement>, t: Trivia)
    requires
        t.ordered(),
        statements_calm(body),
    ensures
        follows(t, capture_stage_low(body, t)),
    decreases body, 0int,
{
    if body.len() > 0 {
        match body[0] {
            Statement::Expression(inner) => {
                assert(statement_calm(&body[0]));
                pipe_capture_follows(&inner, t);
            },
            _ => {
                quiet_follows(t, Doc::Nil);
            },
        }
    } else {
        quiet_follows(t, Doc::Nil);
    }
}

/// The first stage of a pipeline.
proof fn the_first_stage_follows(t: Trivia, first: Lowered, precedence: u8)
    requires
        t.ordered(),
        follows(t, first),
    ensures
        follows_all(
            t,
            LoweredAll {
                docs: seq![operator_side_doc(first.doc, 5, precedence)],
                trivia: first.trivia,
            },
        ),
{
    operands_say(Seq::empty(), 5, first.doc, precedence, Doc::Nil, 0);
    let doc = operator_side_doc(first.doc, 5, precedence);
    reshaped(t, first, doc);
    none_follows(t);
    one_more_follows(
        t,
        LoweredAll { docs: Seq::empty(), trivia: t },
        Lowered { doc, trivia: first.trivia },
    );
    assert(seq![doc] =~= Seq::<Doc>::empty().push(doc));
}

/// One more stage of a pipeline: a line break, the bar under the comments
/// before the stage, and the stage.
proof fn one_more_stage_follows(
    t: Trivia,
    before: LoweredAll,
    start: u32,
    stage: Lowered,
    precedence: u8,
)
    requires
        follows_all(t, before),
        follows(before.trivia.after_comments(start), stage),
    ensures
        follows_all(
            t,
            LoweredAll {
                docs: before.docs.push(Doc::line()).push(
                    commented_doc(Doc::text("|> "@), before.trivia.comments_upto(start)),
                ).push(operator_side_doc(stage.doc, 4, precedence)),
                trivia: stage.trivia,
            },
        ),
{
    after_a_pop(before.trivia, start);
    let t1 = before.trivia.after_comments(start);
    assert(quiet_for_all(Doc::text("|> "@))) by {
        said_step_by_step();
    }
    silent_follows(t1, Doc::text("|> "@));
    commented_follows(before.trivia, start, Lowered { doc: Doc::text("|> "@), trivia: t1 });
    let bar = commented_doc(Doc::text("|> "@), before.trivia.comments_upto(start));
    operands_say(Seq::empty(), 4, stage.doc, precedence, Doc::Nil, 0);
    let side = operator_side_doc(stage.doc, 4, precedence);
    reshaped(t1, stage, side);
    assert(quiet_for_all(Doc::line())) by {
        said_step_by_step();
    }
    a_separator_follows(t, before, Doc::line());
    let one = LoweredAll { docs: before.docs.push(Doc::line()), trivia: before.trivia };
    one_more_follows(t, one, Lowered { doc: bar, trivia: t1 });
    let two = LoweredAll { docs: one.docs.push(bar), trivia: t1 };
    one_more_follows(t, two, Lowered { doc: side, trivia: stage.trivia });
}

proof fn stages_follow(stages: Seq<UntypedExpr>, n: int, t: Trivia)
    requires
        t.ordered(),
        forall|i: int| 0 <= i < stages.len() ==> expr_calm(&#[trigger] stages[i]),
    ensures
        follows_all(t, stages_upto(stages, n, t)),
    decreases stages, n,
{
    if n <= 0 || n > stages.len() {
        none_follows(t);
    } else if n == 1 {
        expr_follows(&stages[0], t);
        the_first_stage_follows(t, expr_low(&stages[0], t), expr_precedence(&stages[0]));
    } else {
        stages_follow(stages, n - 1, t);
        let before = stages_upto(stages, n - 1, t);
        let start = expr_span(&stages[n - 1]).start;
        after_a_pop(before.trivia, start);
        let t1 = before.trivia.after_comments(start);
        assert(expr_calm(&stages[n - 1]));
        let stage = stage_low(&stages[n - 1], t1);
        match stages[n - 1] {
            UntypedExpr::Fn { is_capture: true, body, .. } => {
                capture_stage_follows(body@, t1);
                assert(stage == capture_stage_low(body@, t1));
            },
            _ => {
                expr_follows(&stages[n - 1], t1);
                assert(stage == expr_low(&stages[n - 1], t1));
            },
        }
        one_more_stage_follows(t, before, start, stage, expr_precedence(&stages[n - 1]));
        assert(stages_upto(stages, n, t) == (LoweredAll {
            docs: before.docs.push(Doc::line()).push(
                commented_doc(Doc::text("|> "@), before.trivia.comments_upto(start)),
            ).push(operator_side_doc(stage.doc, 4, expr_precedence(&stages[n - 1]))),
            trivia: stage.trivia,
        }));
    }
}

proof fn pipeline_follows(stages: Seq<UntypedExpr>, t: Trivia)
    requires
        t.ordered(),
        forall|i: int| 0 <= i < stages.len() ==> expr_calm(&#[trigger] stages[i]),
    ensures
        follows(t, pipeline_low(stages, t)),
    decreases stages, stages.len() + 1,
{
    stages_follow(stages, stages.len() as int, t);
    let all = stages_upto(stages, stages.len() as int, t);
    concat_says(all.docs);
    let doc = Doc::concat(all.docs).force_break();
    assert forall|prefix: Seq<char>| #[trigger] said(doc, prefix) =~= said_all(all.docs, prefix) by {
        said_step_by_step();
        assert(said(Doc::concat(all.docs), prefix) =~= said_all(all.docs, prefix));
    }
    as_one(t, all, doc);
}

proof fn fn_capture_follows(body: Seq<Statement>, t: Trivia)
    requires
        t.ordered(),
        statements_calm(body),
    ensures
        follows(t, fn_capture_low(body, t)),
    decreases body, 0int,
{
    if body.len() == 1 {
        match body[0] {
            Statement::Expression(UntypedExpr::Call { fun, arguments, .. }) => {
                assert(statement_calm(&body[0]));
                assert(expr_calm(&*fun));
                assert(call_args_calm(arguments@));
                expr_follows(&*fun, t);
                let f = expr_low(&*fun, t);
                let doc = fn_capture_low(body, t).doc;
                if arguments@.len() == 2 && crate::expr::expr_breakable(&arguments@[1].value)
                    && crate::expr::is_hole(&arguments@[0].value) {
                    assert(expr_calm(&arguments@[1].value));
                    call_arg_follows(&arguments@[1], f.trivia);
                    let second = call_arg_low(&arguments@[1], f.trivia);
                    assert forall|prefix: Seq<char>| #[trigger]
                        said(doc, prefix) =~= said(f.doc, prefix) + said(second.doc, prefix) by {
                        said_step_by_step();
                    }
                    one_after_the_other(t, f, second, doc);
                } else {
                    call_args_follow(arguments@, 0, arguments@.len() as int, f.trivia);
                    let args = call_args_low(arguments@, 0, arguments@.len() as int, f.trivia);
                    wrapped_says(args.docs, Doc::Nil, false);
                    let wrapped = wrap_args_doc(args.docs).group();
                    assert forall|prefix: Seq<char>| #[trigger]
                        said(wrapped, prefix) =~= said_all(args.docs, prefix) by {
                        said_step_by_step();
                        assert(said(wrap_args_doc(args.docs), prefix) =~= said_all(
                            args.docs,
                            prefix,
                        ));
                    }
                    as_one(f.trivia, args, wrapped);
                    assert forall|prefix: Seq<char>| #[trigger]
                        said(doc, prefix) =~= said(f.doc, prefix) + said(wrapped, prefix) by {
                        said_step_by_step();
                    }
                    one_after_the_other(t, f, Lowered { doc: wrapped, trivia: args.trivia }, doc);
                }
            },
            _ => {
                quiet_follows(t, Doc::Nil);
            },
        }
    } else {
        quiet_follows(t, Doc::Nil);
    }
}

proof fn negate_bool_follows(e: &UntypedExpr, t: Trivia)
    requires
        t.ordered(),
        expr_calm(e),
    ensures
        follows(t, negate_bool_low(e, t)),
    decreases e, 2int,
{
    expr_follows(e, t);
    let inner = expr_low(e, t);
    wrapped_says(Seq::empty(), inner.doc, false);
    let doc = negate_bool_low(e, t).doc;
    assert forall|prefix: Seq<char>| #[trigger] said(doc, prefix) =~= said(inner.doc, prefix) by {
        said_step_by_step();
        assert(said(wrap_block_doc(inner.doc), prefix) =~= said(inner.doc, prefix));
    }
    reshaped(t, inner, doc);
}

proof fn negate_int_follows(e: &UntypedExpr, t: Trivia)
    requires
        t.ordered(),
        expr_calm(e),
    ensures
        follows(t, negate_int_low(e, t)),
    decreases e, 2int,
{
    expr_follows(e, t);
    let inner = expr_low(e, t);
    let doc = negate_int_low(e, t).doc;
    assert forall|prefix: Seq<char>| #[trigger] said(doc, prefix) =~= said(inner.doc, prefix) by {
        said_step_by_step();
    }
    reshaped(t, inner, doc);
}

/// The last step for an expression: the comments before it go above what the
/// expression itself gives.
proof fn under_its_comments(e: &UntypedExpr, t: Trivia, inner: Lowered)
    requires
        t.ordered(),
        follows(t.after_comments(expr_start(e)), inner),
        expr_low(e, t) == (Lowered {
            doc: commented_doc(inner.doc, t.comments_upto(expr_start(e))),
            trivia: inner.trivia,
        }),
    ensures
        follows(t, expr_low(e, t)),
        past(expr_low(e, t).trivia.comments, expr_start(e)),
{
    commented_follows(t, expr_start(e), inner);
    commenting_follows(t, expr_start(e));
    rest_stays_past(inner.trivia.comments, t.after_comments(expr_start(e)).comments, expr_start(e));
}

proof fn leaf_follows(e: &UntypedExpr, t: Trivia)
    requires
        t.ordered(),
        e is Placeholder || e is Panic || e is Todo || e is Var || e is Int || e is Float
            || e is String,
    ensures
        follows(t, expr_low(e, t)),
        past(expr_low(e, t).trivia.comments, expr_start(e)),
{
    let start = expr_start(e);
    after_a_pop(t, start);
    let t1 = t.after_comments(start);
    let doc = match e {
        UntypedExpr::Placeholder { .. } => Doc::Nil,
        UntypedExpr::Panic { message, .. } => match message {
            Some(m) => Doc::text("panic as \""@).append(Doc::text(m@)).append(Doc::text("\""@)),
            None => Doc::text("panic"@),
        },
        UntypedExpr::Todo { message, .. } => match message {
            Some(m) => Doc::text("todo as \""@).append(Doc::text(m@)).append(Doc::text("\""@)),
            None => Doc::text("todo"@),
        },
        UntypedExpr::Int { value, .. } => crate::literal::int_doc(value@),
        UntypedExpr::Float { value, .. } => crate::literal::float_doc(value@),
        UntypedExpr::String { value, .. } => crate::literal::string_doc(value@),
        UntypedExpr::Var { name, .. } => if name@ == crate::ast::CAPTURE_VARIABLE@ {
            Doc::text("_"@)
        } else {
            Doc::text(name@)
        },
        _ => Doc::Nil,
    };
    match e {
        UntypedExpr::Int { value, .. }
        | UntypedExpr::Float { value, .. }
        | UntypedExpr::String { value, .. } => {
            crate::order::literals_say_nothing(value@);
        },
        _ => {},
    }
    assert(quiet_for_all(doc)) by {
        said_step_by_step();
    }
    silent_follows(t1, doc);
    under_its_comments(e, t, Lowered { doc, trivia: t1 });
}

proof fn block_follows(e: &UntypedExpr, t: Trivia)
    requires
        t.ordered(),
        expr_calm(e),
        e is Block,
    ensures
        follows(t, expr_low(e, t)),
        past(expr_low(e, t).trivia.comments, expr_start(e)),
    decreases e, 0int,
{
    let start = expr_start(e);
    after_a_pop(t, start);
    let t1 = t.after_comments(start);
    match e {
        UntypedExpr::Block { statements, .. } => {
            statements_follow(statements@, t1);
            let inner = statements_low(statements@, t1);
            let doc = Doc::text("{"@).append(
                Doc::break_(""@, " "@).append(inner.doc).nest(INDENT as nat),
            ).append(Doc::break_(""@, " "@)).append(Doc::text("}"@)).group();
            assert forall|prefix: Seq<char>| #[trigger]
                said(doc, prefix) =~= said(inner.doc, prefix) by {
                said_step_by_step();
            }
            reshaped(t1, inner, doc);
            under_its_comments(e, t, Lowered { doc, trivia: inner.trivia });
        },
        _ => {},
    }
}

proof fn access_follows(e: &UntypedExpr, t: Trivia)
    requires
        t.ordered(),
        expr_calm(e),
        e is TupleIndex || e is FieldAccess,
    ensures
        follows(t, expr_low(e, t)),
        past(expr_low(e, t).trivia.comments, expr_start(e)),
    decreases e, 0int,
{
    let start = expr_start(e);
    after_a_pop(t, start);
    let t1 = t.after_comments(start);
    match e {
        UntypedExpr::TupleIndex { tuple, index, .. } => {
            expr_follows(&**tuple, t1);
            let inner = expr_low(&**tuple, t1);
            let head = if **tuple is TupleIndex {
                inner.doc.surround("{"@, "}"@)
            } else {
                inner.doc
            };
            let doc = head.append(Doc::text("."@)).append(
                Doc::text(crate::literal::decimal(*index as nat)),
            );
            assert forall|prefix: Seq<char>| #[trigger]
                said(doc, prefix) =~= said(inner.doc, prefix) by {
                said_step_by_step();
            }
            reshaped(t1, inner, doc);
            under_its_comments(e, t, Lowered { doc, trivia: inner.trivia });
        },
        UntypedExpr::FieldAccess { label, container, .. } => {
            expr_follows(&**container, t1);
            let inner = expr_low(&**container, t1);
            let head = if **container is TupleIndex {
                inner.doc.surround("{ "@, " }"@)
            } else {
                inner.doc
            };
            let doc = head.append(Doc::text("."@)).append(Doc::text(label@));
            assert forall|prefix: Seq<char>| #[trigger]
                said(doc, prefix) =~= said(inner.doc, prefix) by {
                said_step_by_step();
            }
            reshaped(t1, inner, doc);
            under_its_comments(e, t, Lowered { doc, trivia: inner.trivia });
        },
        _ => {},
    }
}

proof fn operation_follows(e: &UntypedExpr, t: Trivia)
    requires
        t.ordered(),
        expr_calm(e),
        e is BinOp,
    ensures
        follows(t, operation_low(e, t)),
    decreases e, 0int,
{
    match e {
        UntypedExpr::BinOp { name, left, right, .. } => {
            expr_follows(&**left, t);
            let l = expr_low(&**left, t);
            expr_follows(&**right, l.trivia);
            let r = expr_low(&**right, l.trivia);
            operands_say(
                name.spec_name()@,
                name.spec_precedence(),
                l.doc,
                expr_precedence(&**left),
                r.doc,
                expr_precedence(&**right),
            );
            one_after_the_other(t, l, r, operation_low(e, t).doc);
        },
        _ => {},
    }
}

proof fn case_expr_follows(e: &UntypedExpr, t: Trivia)
    requires
        t.ordered(),
        expr_calm(e),
        e is Case,
    ensures
        follows(t, case_expr_low(e, t)),
    decreases e, 0int,
{
    match e {
        UntypedExpr::Case { subjects, clauses, .. } => {
            exprs_follow(subjects@, subjects@.len() as int, t);
            let s = exprs_low(subjects@, subjects@.len() as int, t);
            clauses_follow(clauses@, clauses@.len() as int, s.trivia);
            a_case_follows(t, s, clauses_low(clauses@, clauses@.len() as int, s.trivia));
        },
        _ => {},
    }
}

proof fn collection_follows(e: &UntypedExpr, t: Trivia)
    requires
        t.ordered(),
        expr_calm(e),
        e is Tuple || e is BitArray,
    ensures
        follows(t, expr_low(e, t)),
        past(expr_low(e, t).trivia.comments, expr_start(e)),
    decreases e, 0int,
{
    let start = expr_start(e);
    after_a_pop(t, start);
    let t1 = t.after_comments(start);
    match e {
        UntypedExpr::Tuple { elems, .. } => {
            exprs_follow(elems@, elems@.len() as int, t1);
            let items = exprs_low(elems@, elems@.len() as int, t1);
            wrapped_says(items.docs, Doc::Nil, false);
            let doc = Doc::text("#"@).append(wrap_args_doc(items.docs)).group();
            assert forall|prefix: Seq<char>| #[trigger]
                said(doc, prefix) =~= said_all(items.docs, prefix) by {
                said_step_by_step();
                assert(said(wrap_args_doc(items.docs), prefix) =~= said_all(items.docs, prefix));
            }
            as_one(t1, items, doc);
            under_its_comments(e, t, Lowered { doc, trivia: items.trivia });
        },
        UntypedExpr::BitArray { segments, .. } => {
            expr_segments_follow(segments@, segments@.len() as int, t1);
            let items = expr_segments_low(segments@, segments@.len() as int, t1);
            let simple = expr_segments_simple(segments@, segments@.len() as int);
            wrapped_says(items.docs, Doc::Nil, simple);
            let doc = bit_array_doc(items.docs, simple);
            assert forall|prefix: Seq<char>| #[trigger]
                said(doc, prefix) =~= said_all(items.docs, prefix) by {
                assert(said(bit_array_doc(items.docs, simple), prefix) =~= said_all(
                    items.docs,
                    prefix,
                ));
            }
            as_one(t1, items, doc);
            under_its_comments(e, t, Lowered { doc, trivia: items.trivia });
        },
        _ => {},
    }
}

proof fn update_follows(e: &UntypedExpr, t: Trivia)
    requires
        t.ordered(),
        expr_calm(e),
        e is RecordUpdate,
    ensures
        follows(t, update_low(e, t)),
    decreases e, 0int,
{
    match e {
        UntypedExpr::RecordUpdate { constructor, spread, arguments, .. } => {
            expr_follows(&**constructor, t);
            let c = expr_low(&**constructor, t);
            let at = expr_span(&*spread.base).start;
            after_a_pop(c.trivia, at);
            expr_follows(&*spread.base, c.trivia.after_comments(at));
            let base = expr_low(&*spread.base, c.trivia.after_comments(at));
            record_update_args_follow(arguments@, arguments@.len() as int, base.trivia);
            a_record_update_follows(
                t,
                c,
                at,
                base,
                record_update_args_low(arguments@, arguments@.len() as int, base.trivia),
            );
        },
        _ => {},
    }
}

/// An expression says the comments it pops in their order, and leaves none
/// that starts before it does.
pub proof fn expr_follows(e: &UntypedExpr, t: Trivia)
    requires
        t.ordered(),
        expr_calm(e),
    ensures
        follows(t, expr_low(e, t)),
        past(expr_low(e, t).trivia.comments, expr_start(e)),
    decreases e, 1int,
{
    let start = expr_start(e);
    after_a_pop(t, start);
    let t1 = t.after_comments(start);
    match e {
        UntypedExpr::Placeholder { .. }
        | UntypedExpr::Panic { .. }
        | UntypedExpr::Todo { .. }
        | UntypedExpr::Var { .. }
        | UntypedExpr::Int { .. }
        | UntypedExpr::Float { .. }
        | UntypedExpr::String { .. } => {
            leaf_follows(e, t);
        },
        UntypedExpr::PipeLine { expressions } => {
            pipeline_follows(expressions@, t1);
            under_its_comments(e, t, pipeline_low(expressions@, t1));
        },
        UntypedExpr::Block { .. } => {
            block_follows(e, t);
        },
        UntypedExpr::TupleIndex { .. } | UntypedExpr::FieldAccess { .. } => {
            access_follows(e, t);
        },
        UntypedExpr::NegateInt { value, .. } => {
            negate_int_follows(&**value, t1);
            under_its_comments(e, t, negate_int_low(&**value, t1));
        },
        UntypedExpr::NegateBool { value, .. } => {
            negate_bool_follows(&**value, t1);
            under_its_comments(e, t, negate_bool_low(&**value, t1));
        },
        UntypedExpr::Fn { is_capture, body, .. } => {
            if *is_capture {
                fn_capture_follows(body@, t1);
                under_its_comments(e, t, fn_capture_low(body@, t1));
            } else {
                expr_fn_follows(e, t1);
                under_its_comments(e, t, expr_fn_low(e, t1));
            }
        },
        UntypedExpr::List { .. } => {
            list_follows(e, t1);
            under_its_comments(e, t, list_low(e, t1));
        },
        UntypedExpr::Call { .. } => {
            call_follows(e, t1);
            under_its_comments(e, t, call_low(e, t1));
        },
        UntypedExpr::BinOp { .. } => {
            operation_follows(e, t1);
            under_its_comments(e, t, operation_low(e, t1));
        },
        UntypedExpr::Case { .. } => {
            case_expr_follows(e, t1);
            under_its_comments(e, t, case_expr_low(e, t1));
        },
        UntypedExpr::Tuple { .. } | UntypedExpr::BitArray { .. } => {
            collection_follows(e, t);
        },
        UntypedExpr::RecordUpdate { .. } => {
            update_follows(e, t1);
            under_its_comments(e, t, update_low(e, t1));
        },
    }
}

/// A binary operation lowered from its parts says the comments it pops in
/// their order.
pub proof fn bin_op_follows(name: BinOp, left: &UntypedExpr, right: &UntypedExpr, t: Trivia)
    requires
        t.ordered(),
        expr_calm(left),
        expr_calm(right),
    ensures
        follows(t, bin_op_low(name, left, right, t)),
{
    operation_follows(&operation_of(name, left, right), t);
}

/// A `case` from its lowered subjects and clauses.
proof fn a_case_follows(t: Trivia, s: LoweredAll, c: LoweredAll)
    requires
        follows_all(t, s),
        follows_all(s.trivia, c),
    ensures
        follows(t, Lowered { doc: case_doc(s.docs, c.docs), trivia: c.trivia }),
{
    concat_says(s.docs);
    concat_says(c.docs);
    as_one(t, s, Doc::concat(s.docs));
    as_one(s.trivia, c, Doc::concat(c.docs));
    a_case_says(s.docs, c.docs);
    let doc = case_doc(s.docs, c.docs);
    assert forall|prefix: Seq<char>| #[trigger]
        said(doc, prefix) =~= said(Doc::concat(s.docs), prefix) + said(
            Doc::concat(c.docs),
            prefix,
        ) by {
        assert(said(Doc::concat(s.docs), prefix) =~= said_all(s.docs, prefix));
        assert(said(Doc::concat(c.docs), prefix) =~= said_all(c.docs, prefix));
    }
    one_after_the_other(
        t,
        Lowered { doc: Doc::concat(s.docs), trivia: s.trivia },
        Lowered { doc: Doc::concat(c.docs), trivia: c.trivia },
        doc,
    );
}

/// A `case` lowered from its parts says the comments it pops in their order.
pub proof fn case_follows(subjects: &Vec<UntypedExpr>, clauses: &Vec<Clause>, t: Trivia)
    requires
        t.ordered(),
        forall|i: int| 0 <= i < subjects@.len() ==> expr_calm(&#[trigger] subjects@[i]),
        forall|i: int| 0 <= i < clauses@.len() ==> expr_calm(&(#[trigger] clauses@[i]).body),
    ensures
        follows(t, case_low(subjects, clauses, t)),
{
    case_expr_follows(&case_of(subjects, clauses), t);
}

/// A record update from its lowered parts.
proof fn a_record_update_follows(
    t: Trivia,
    c: Lowered,
    start: u32,
    base: Lowered,
    lowered: LoweredAll,
)
    requires
        follows(t, c),
        follows(c.trivia.after_comments(start), base),
        follows_all(base.trivia, lowered),
    ensures
        follows(
            t,
            Lowered {
                doc: record_update_doc(
                    c.doc,
                    commented_doc(
                        Doc::text(".."@).append(base.doc),
                        c.trivia.comments_upto(start),
                    ),
                    lowered.docs,
                ),
                trivia: lowered.trivia,
            },
        ),
{
    let t1 = c.trivia.after_comments(start);
    let plain_spread = Doc::text(".."@).append(base.doc);
    assert forall|prefix: Seq<char>| #[trigger]
        said(plain_spread, prefix) =~= said(base.doc, prefix) by {
        said_step_by_step();
    }
    reshaped(t1, base, plain_spread);
    commented_follows(c.trivia, start, Lowered { doc: plain_spread, trivia: base.trivia });
    let shown = commented_doc(plain_spread, c.trivia.comments_upto(start));
    concat_says(lowered.docs);
    as_one(base.trivia, lowered, Doc::concat(lowered.docs));
    a_record_update_says(c.doc, shown, lowered.docs);
    let both = c.doc.append(shown);
    assert forall|prefix: Seq<char>| #[trigger]
        said(both, prefix) =~= said(c.doc, prefix) + said(shown, prefix) by {
        said_step_by_step();
    }
    one_after_the_other(t, c, Lowered { doc: shown, trivia: base.trivia }, both);
    let doc = record_update_doc(c.doc, shown, lowered.docs);
    assert forall|prefix: Seq<char>| #[trigger]
        said(doc, prefix) =~= said(both, prefix) + said(Doc::concat(lowered.docs), prefix) by {
        assert(said(Doc::concat(lowered.docs), prefix) =~= said_all(lowered.docs, prefix));
    }
    one_after_the_other(
        t,
        Lowered { doc: both, trivia: base.trivia },
        Lowered { doc: Doc::concat(lowered.docs), trivia: lowered.trivia },
        doc,
    );
}

/// A record update lowered from its parts says the comments it pops in
/// their order.
pub proof fn record_update_follows(
    constructor: &UntypedExpr,
    spread: &RecordUpdateSpread,
    args: &Vec<UntypedRecordUpdateArg>,
    t: Trivia,
)
    requires
        t.ordered(),
        expr_calm(constructor),
        expr_calm(&*spread.base),
        forall|i: int| 0 <= i < args@.len() ==> expr_calm(&(#[trigger] args@[i]).value),
    ensures
        follows(t, record_update_low(constructor, spread, args, t)),
{
    update_follows(&update_of(constructor, spread, args), t);
}

} // verus!
