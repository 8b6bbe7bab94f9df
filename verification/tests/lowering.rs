use gleam_format::ast::{
    Arg, ArgNames, AssignName, Assignment, AssignmentKind, BinOp, BitArrayOption, BitArraySegment,
    CallArg, Clause, ClauseGuard, Constant, CustomType, Definition, Deprecation, Function, Import,
    ModuleConstant, Pattern, RecordConstructor, RecordConstructorArg, RecordUpdateSpread, SrcSpan,
    Statement, Target, TargetedDefinition, TypeAlias, TypeAst, TypedArg, TypedConstant,
    UnqualifiedImport, UntypedExpr, UntypedModule, UntypedRecordUpdateArg, Use, UseAssignment,
};
use gleam_format::module::format_module;
use gleam_format::pretty::{render, Document};
use gleam_format::trivia::{Comment, Formatter, Intermediate};

fn at(start: u32, end: u32) -> SrcSpan {
    SrcSpan { start, end }
}

fn nowhere() -> SrcSpan {
    at(0, 0)
}

fn number(value: &str) -> UntypedExpr {
    UntypedExpr::Int { location: nowhere(), value: value.to_string() }
}

fn var(name: &str) -> UntypedExpr {
    UntypedExpr::Var { location: nowhere(), name: name.to_string() }
}

fn var_at(name: &str, start: u32, end: u32) -> UntypedExpr {
    UntypedExpr::Var { location: at(start, end), name: name.to_string() }
}

fn text_literal(value: &str) -> UntypedExpr {
    UntypedExpr::String { location: nowhere(), value: value.to_string() }
}

fn binop(name: BinOp, left: UntypedExpr, right: UntypedExpr) -> UntypedExpr {
    UntypedExpr::BinOp { location: nowhere(), name, left: Box::new(left), right: Box::new(right) }
}

fn positional(value: UntypedExpr) -> CallArg<UntypedExpr> {
    CallArg { label: None, location: nowhere(), value }
}

fn labelled(label: &str, value: UntypedExpr) -> CallArg<UntypedExpr> {
    CallArg { label: Some(label.to_string()), location: nowhere(), value }
}

fn call(fun: UntypedExpr, arguments: Vec<CallArg<UntypedExpr>>) -> UntypedExpr {
    UntypedExpr::Call { location: nowhere(), fun: Box::new(fun), arguments }
}

fn capture(body: UntypedExpr) -> UntypedExpr {
    UntypedExpr::Fn {
        location: nowhere(),
        is_capture: true,
        arguments: vec![],
        body: vec![Statement::Expression(body)],
        return_annotation: None,
    }
}

fn hole() -> UntypedExpr {
    var("_capture")
}

fn list(elements: Vec<UntypedExpr>) -> UntypedExpr {
    UntypedExpr::List { location: nowhere(), elements, tail: None }
}

fn tuple(elems: Vec<UntypedExpr>) -> UntypedExpr {
    UntypedExpr::Tuple { location: nowhere(), elems }
}

fn block(statements: Vec<Statement>) -> UntypedExpr {
    UntypedExpr::Block { location: nowhere(), statements }
}

fn named(name: &str) -> TypeAst {
    TypeAst::Constructor { module: None, name: name.to_string(), arguments: vec![] }
}

fn variable(name: &str) -> Pattern {
    Pattern::Variable { location: nowhere(), name: name.to_string() }
}

fn clause(pattern: Pattern, body: UntypedExpr) -> Clause {
    Clause {
        location: nowhere(),
        pattern: vec![pattern],
        alternative_patterns: vec![],
        guard: None,
        body,
    }
}

fn function(name: &str, body: Vec<Statement>) -> Function {
    Function {
        location: nowhere(),
        end_position: 0,
        name: name.to_string(),
        arguments: vec![],
        body,
        public: true,
        deprecation: Deprecation::NotDeprecated,
        return_annotation: None,
        external_erlang: None,
        external_javascript: None,
    }
}

fn import(module: &str) -> Import {
    Import {
        location: nowhere(),
        module: module.to_string(),
        as_name: None,
        unqualified_values: vec![],
        unqualified_types: vec![],
    }
}

fn unqualified(name: &str) -> UnqualifiedImport {
    UnqualifiedImport { location: nowhere(), name: name.to_string(), as_name: None }
}

fn untargeted(definition: Definition) -> TargetedDefinition {
    TargetedDefinition { definition, target: None }
}

fn no_trivia() -> Intermediate<'static> {
    Intermediate { comments: vec![], doc_comments: vec![], module_comments: vec![], empty_lines: &[] }
}

fn show(doc: Document<'_>) -> String {
    render(&doc, 80)
}

fn expr_text(expr: &UntypedExpr) -> String {
    assert!(expr.is_printable());
    show(Formatter::new().expr(expr))
}

fn statements_text(statements: &Vec<Statement>, extra: &Intermediate<'_>) -> String {
    assert!(gleam_format::valid::statements_printable(statements));
    show(Formatter::with_comments(extra).statements(statements))
}

fn definition_text(definition: &Definition) -> String {
    assert!(definition.is_printable());
    show(Formatter::new().definition(definition))
}

fn pattern_text(pattern: &Pattern) -> String {
    show(Formatter::new().pattern(pattern))
}

fn module_text(module: &UntypedModule, extra: &Intermediate<'_>) -> String {
    assert!(module.is_printable());
    format_module(module, extra)
}

#[test]
fn multiplication_binds_tighter_than_addition() {
    let expr = binop(BinOp::AddInt, number("1"), binop(BinOp::MultInt, number("2"), number("3")));
    assert_eq!(expr_text(&expr), "1 + 2 * 3");
}

#[test]
fn a_sum_under_a_product_keeps_its_braces() {
    let expr = binop(BinOp::MultInt, binop(BinOp::AddInt, number("1"), number("2")), number("3"));
    assert_eq!(expr_text(&expr), "{ 1 + 2 } * 3");
}

#[test]
fn a_difference_on_the_right_of_a_difference_keeps_its_braces() {
    let expr = binop(BinOp::SubInt, var("a"), binop(BinOp::SubInt, var("b"), var("c")));
    assert_eq!(expr_text(&expr), "a - { b - c }");
}

#[test]
fn a_chain_of_differences_needs_no_braces() {
    let expr = binop(BinOp::SubInt, binop(BinOp::SubInt, var("a"), var("b")), var("c"));
    assert_eq!(expr_text(&expr), "a - b - c");
}

#[test]
fn a_block_operand_is_printed_as_a_block() {
    let inner = binop(BinOp::AddInt, number("1"), number("2"));
    let expr = binop(BinOp::MultInt, block(vec![Statement::Expression(inner)]), number("3"));
    assert_eq!(expr_text(&expr), "{ 1 + 2 } * 3");
}

#[test]
fn operand_in_braces_through_the_public_entry() {
    let left = binop(BinOp::Or, var("a"), var("b"));
    let right = var("c");
    let doc = Formatter::new().bin_op(&BinOp::And, &left, &right);
    assert_eq!(show(doc), "{ a || b } && c");
    let mut formatter = Formatter::new();
    let plain = formatter.operator_side(gleam_format::pretty::text("x"), 3, 3);
    assert_eq!(show(plain), "x");
    let wrapped = formatter.operator_side(gleam_format::pretty::text("x"), 4, 3);
    assert_eq!(show(wrapped), "{ x }");
}

fn wide_call(second: usize) -> UntypedExpr {
    call(
        var("f"),
        vec![positional(var(&"a".repeat(37))), positional(var(&"b".repeat(second)))],
    )
}

#[test]
fn a_call_of_exactly_eighty_columns_stays_flat() {
    let text = expr_text(&wide_call(38));
    assert_eq!(text, format!("f({}, {})", "a".repeat(37), "b".repeat(38)));
    assert_eq!(text.len(), 80);
}

#[test]
fn a_call_of_eighty_one_columns_breaks_after_every_argument() {
    let text = expr_text(&wide_call(39));
    assert_eq!(text, format!("f(\n  {},\n  {},\n)", "a".repeat(37), "b".repeat(39)));
}

#[test]
fn a_call_without_arguments() {
    assert_eq!(expr_text(&call(var("f"), vec![])), "f()");
}

#[test]
fn a_labelled_argument() {
    let expr = call(var("f"), vec![labelled("name", number("1")), positional(number("2"))]);
    assert_eq!(expr_text(&expr), "f(name: 1, 2)");
}

#[test]
fn a_single_list_argument_hugs_the_parentheses() {
    let items: Vec<UntypedExpr> = (0..30).map(|i| call(var("item"), vec![positional(number(&i.to_string()))])).collect();
    let expr = call(var("f"), vec![positional(list(items))]);
    let text = expr_text(&expr);
    assert!(text.starts_with("f([\n  item(0),\n  item(1),\n"));
    assert!(text.ends_with("  item(29),\n])"));
}

#[test]
fn a_pipe_into_a_capture_with_the_hole_first_drops_the_hole() {
    let stage = capture(call(var("f"), vec![positional(hole()), positional(number("2"))]));
    let expr = UntypedExpr::PipeLine { expressions: vec![var("x"), stage] };
    assert_eq!(expr_text(&expr), "x\n|> f(2)");
}

#[test]
fn a_pipe_into_a_capture_with_the_hole_later_keeps_the_call() {
    let stage = capture(call(var("f"), vec![positional(number("1")), positional(hole())]));
    let expr = UntypedExpr::PipeLine { expressions: vec![var("x"), stage] };
    assert_eq!(expr_text(&expr), "x\n|> f(1, _)");
}

#[test]
fn a_pipe_into_a_capture_of_the_hole_alone_is_the_function() {
    let stage = capture(call(var("f"), vec![positional(hole())]));
    let expr = UntypedExpr::PipeLine { expressions: vec![var("x"), stage] };
    assert_eq!(expr_text(&expr), "x\n|> f");
}

#[test]
fn a_pipeline_has_one_stage_per_line() {
    let expr = UntypedExpr::PipeLine {
        expressions: vec![var("a"), var("f"), call(var("g"), vec![positional(number("1"))])],
    };
    assert_eq!(expr_text(&expr), "a\n|> f\n|> g(1)");
}

#[test]
fn a_loosely_binding_first_stage_stands_in_braces() {
    let first = binop(BinOp::Eq, var("a"), var("b"));
    let expr = UntypedExpr::PipeLine { expressions: vec![first, var("f")] };
    assert_eq!(expr_text(&expr), "{ a == b }\n|> f");
}

#[test]
fn a_capture_prints_its_hole() {
    let expr = capture(call(var("f"), vec![positional(hole()), positional(number("2"))]));
    assert_eq!(expr_text(&expr), "f(_, 2)");
}

#[test]
fn a_capture_with_a_list_after_the_hole_hugs_it() {
    let expr = capture(call(var("f"), vec![positional(hole()), positional(list(vec![number("1")]))]));
    assert_eq!(expr_text(&expr), "f(_, [1])");
}

#[test]
fn a_long_list_of_simple_elements_packs_its_lines() {
    let items: Vec<UntypedExpr> = (0..40).map(|_| number("1000")).collect();
    let text = expr_text(&list(items));
    let lines: Vec<&str> = text.split('\n').collect();
    assert_eq!(lines[0], "[");
    assert_eq!(lines[lines.len() - 1], "]");
    let expected_row = format!("  {},", vec!["1000"; 13].join(", "));
    assert_eq!(lines[1], expected_row);
    assert_eq!(lines[2], expected_row);
    assert_eq!(lines[3], expected_row);
    assert_eq!(lines[4], "  1000,");
    assert_eq!(lines.len(), 6);
}

#[test]
fn a_long_list_of_calls_breaks_after_every_element() {
    let items: Vec<UntypedExpr> = (0..20).map(|_| call(var("item"), vec![])).collect();
    let text = expr_text(&list(items));
    let lines: Vec<&str> = text.split('\n').collect();
    assert_eq!(lines.len(), 22);
    assert_eq!(lines[1], "  item(),");
    assert_eq!(lines[20], "  item(),");
}

#[test]
fn short_lists() {
    assert_eq!(expr_text(&list(vec![])), "[]");
    assert_eq!(expr_text(&list(vec![number("1"), number("2")])), "[1, 2]");
}

#[test]
fn a_list_with_a_tail() {
    let expr = UntypedExpr::List {
        location: nowhere(),
        elements: vec![number("1"), number("2")],
        tail: Some(Box::new(var("rest"))),
    };
    assert_eq!(expr_text(&expr), "[1, 2, ..rest]");
}

#[test]
fn an_empty_list_with_a_tail_is_the_tail() {
    let expr = UntypedExpr::List {
        location: nowhere(),
        elements: vec![],
        tail: Some(Box::new(var("rest"))),
    };
    assert_eq!(expr_text(&expr), "rest");
}

#[test]
fn tuples_and_tuple_indices() {
    assert_eq!(expr_text(&tuple(vec![number("1"), var("x")])), "#(1, x)");
    let first = UntypedExpr::TupleIndex { location: nowhere(), index: 0, tuple: Box::new(var("x")) };
    assert_eq!(expr_text(&first), "x.0");
    let second = UntypedExpr::TupleIndex { location: nowhere(), index: 12, tuple: Box::new(first) };
    assert_eq!(expr_text(&second), "{x.0}.12");
}

#[test]
fn field_access() {
    let plain = UntypedExpr::FieldAccess {
        location: nowhere(),
        label: "name".to_string(),
        container: Box::new(var("person")),
    };
    assert_eq!(expr_text(&plain), "person.name");
    let index = UntypedExpr::TupleIndex { location: nowhere(), index: 1, tuple: Box::new(var("x")) };
    let of_index = UntypedExpr::FieldAccess {
        location: nowhere(),
        label: "name".to_string(),
        container: Box::new(index),
    };
    assert_eq!(expr_text(&of_index), "{ x.1 }.name");
}

#[test]
fn negations() {
    let not = |value| UntypedExpr::NegateBool { location: nowhere(), value: Box::new(value) };
    let minus = |value| UntypedExpr::NegateInt { location: nowhere(), value: Box::new(value) };
    assert_eq!(expr_text(&not(var("x"))), "!x");
    assert_eq!(expr_text(&not(binop(BinOp::And, var("a"), var("b")))), "!{ a && b }");
    assert_eq!(expr_text(&minus(var("x"))), "-x");
    assert_eq!(expr_text(&minus(minus(var("x")))), "- -x");
    assert_eq!(expr_text(&minus(binop(BinOp::AddInt, var("a"), var("b")))), "- a + b");
}

#[test]
fn todo_and_panic() {
    let todo = |message: Option<&str>| UntypedExpr::Todo {
        location: nowhere(),
        message: message.map(|m| m.to_string()),
    };
    let panic = |message: Option<&str>| UntypedExpr::Panic {
        location: nowhere(),
        message: message.map(|m| m.to_string()),
    };
    assert_eq!(expr_text(&todo(None)), "todo");
    assert_eq!(expr_text(&todo(Some("later"))), "todo as \"later\"");
    assert_eq!(expr_text(&panic(None)), "panic");
    assert_eq!(expr_text(&panic(Some("no"))), "panic as \"no\"");
}

#[test]
fn the_capture_variable_prints_as_an_underscore() {
    assert_eq!(expr_text(&hole()), "_");
}

#[test]
fn literals_in_expressions_are_canonical() {
    assert_eq!(expr_text(&number("100000")), "100_000");
    assert_eq!(expr_text(&number("0xFF")), "0xFF");
    let float = UntypedExpr::Float { location: nowhere(), value: "1.50".to_string() };
    assert_eq!(expr_text(&float), "1.5");
    assert_eq!(expr_text(&text_literal("hi")), "\"hi\"");
}

#[test]
fn a_case_is_always_broken() {
    let expr = UntypedExpr::Case {
        location: nowhere(),
        subjects: vec![var("x")],
        clauses: vec![
            clause(Pattern::Int { location: nowhere(), value: "1".to_string() }, text_literal("one")),
            clause(Pattern::Discard { location: nowhere(), name: "_".to_string() }, text_literal("other")),
        ],
    };
    assert_eq!(expr_text(&expr), "case x {\n  1 -> \"one\"\n  _ -> \"other\"\n}");
}

#[test]
fn a_case_through_the_public_entry() {
    let subjects = vec![var("a"), var("b")];
    let clauses = vec![Clause {
        location: nowhere(),
        pattern: vec![variable("x"), variable("y")],
        alternative_patterns: vec![vec![variable("y"), variable("x")]],
        guard: Some(ClauseGuard::Equals {
            left: Box::new(ClauseGuard::Var { name: "x".to_string() }),
            right: Box::new(ClauseGuard::Constant(Constant::Int { value: "1".to_string() })),
        }),
        body: var("x"),
    }];
    let doc = Formatter::new().case(&subjects, &clauses);
    assert_eq!(show(doc), "case a, b {\n  x, y | y, x if x == 1 -> x\n}");
}

#[test]
fn a_blank_line_between_clauses_is_kept() {
    let first = Clause { location: at(10, 20), ..clause(variable("a"), number("1")) };
    let second = Clause { location: at(30, 40), ..clause(variable("b"), number("2")) };
    let third = Clause { location: at(50, 60), ..clause(variable("c"), number("3")) };
    let extra = Intermediate {
        comments: vec![Comment { start: 45, content: " last" }],
        doc_comments: vec![],
        module_comments: vec![],
        empty_lines: &[25, 26],
    };
    let subjects = vec![var("x")];
    let clauses = vec![first, second, third];
    let doc = Formatter::with_comments(&extra).case(&subjects, &clauses);
    assert_eq!(show(doc), "case x {\n  a -> 1\n\n  b -> 2\n  // last\n  c -> 3\n}");
}

#[test]
fn a_case_as_the_value_of_a_clause_goes_on_the_next_line() {
    let inner = UntypedExpr::Case {
        location: nowhere(),
        subjects: vec![var("y")],
        clauses: vec![clause(variable("b"), number("1"))],
    };
    let outer = UntypedExpr::Case {
        location: nowhere(),
        subjects: vec![var("x")],
        clauses: vec![clause(variable("a"), inner)],
    };
    assert_eq!(expr_text(&outer), "case x {\n  a ->\n    case y {\n      b -> 1\n    }\n}");
}

#[test]
fn a_block_as_the_value_of_a_clause() {
    let body = block(vec![
        Statement::Expression(call(var("f"), vec![])),
        Statement::Expression(number("1")),
    ]);
    let expr = UntypedExpr::Case {
        location: nowhere(),
        subjects: vec![var("x")],
        clauses: vec![clause(variable("a"), body)],
    };
    assert_eq!(expr_text(&expr), "case x {\n  a -> {\n    f()\n    1\n  }\n}");
}

#[test]
fn guards_take_braces_by_precedence() {
    let name = |n: &str| Box::new(ClauseGuard::Var { name: n.to_string() });
    let or = ClauseGuard::Or { left: name("a"), right: name("b") };
    let and = ClauseGuard::And { left: Box::new(or), right: name("c") };
    assert_eq!(show(gleam_format::guard::clause_guard(&and)), "{ a || b } && c");
    let flat = ClauseGuard::Or {
        left: Box::new(ClauseGuard::And { left: name("a"), right: name("b") }),
        right: name("c"),
    };
    assert_eq!(show(gleam_format::guard::clause_guard(&flat)), "a && b || c");
    let not = ClauseGuard::Not { expression: name("a") };
    assert_eq!(show(gleam_format::guard::clause_guard(&not)), "!a");
    let index = ClauseGuard::TupleIndex { index: 3, tuple: name("t") };
    assert_eq!(show(gleam_format::guard::clause_guard(&index)), "t.3");
    let field = ClauseGuard::FieldAccess { label: "f".to_string(), container: name("r") };
    assert_eq!(show(gleam_format::guard::clause_guard(&field)), "r.f");
    let select = ClauseGuard::ModuleSelect { module_name: "m".to_string(), label: "c".to_string() };
    assert_eq!(show(gleam_format::guard::clause_guard(&select)), "m.c");
    let left = ClauseGuard::Var { name: "a".to_string() };
    let right = ClauseGuard::Var { name: "b".to_string() };
    let doc = Formatter::new().clause_guard_bin_op(" >. ", 4, &left, &right);
    assert_eq!(show(doc), "a >. b");
}

#[test]
fn an_anonymous_function() {
    let expr = UntypedExpr::Fn {
        location: nowhere(),
        is_capture: false,
        arguments: vec![
            Arg {
                names: ArgNames::Named { name: "x".to_string() },
                location: nowhere(),
                annotation: Some(named("Int")),
            },
            Arg {
                names: ArgNames::Discard { name: "_".to_string() },
                location: nowhere(),
                annotation: None,
            },
        ],
        body: vec![Statement::Expression(var("x"))],
        return_annotation: Some(named("Int")),
    };
    assert_eq!(expr_text(&expr), "fn(x: Int, _) -> Int { x }");
}

#[test]
fn a_function_of_two_statements_is_broken() {
    let expr = UntypedExpr::Fn {
        location: nowhere(),
        is_capture: false,
        arguments: vec![],
        body: vec![Statement::Expression(var("x")), Statement::Expression(var("y"))],
        return_annotation: None,
    };
    assert_eq!(expr_text(&expr), "fn() {\n  x\n  y\n}");
}

#[test]
fn a_record_update() {
    let constructor = var("Person");
    let spread = RecordUpdateSpread { base: Box::new(var("p")), location: nowhere() };
    let args = vec![UntypedRecordUpdateArg {
        label: "name".to_string(),
        location: nowhere(),
        value: text_literal("x"),
    }];
    let doc = Formatter::new().record_update(&constructor, &spread, &args);
    assert_eq!(show(doc), "Person(..p, name: \"x\")");
    let expr = UntypedExpr::RecordUpdate {
        location: nowhere(),
        constructor: Box::new(var("Person")),
        spread: RecordUpdateSpread { base: Box::new(var("p")), location: nowhere() },
        arguments: vec![],
    };
    assert_eq!(expr_text(&expr), "Person(..p)");
}

#[test]
fn bit_arrays() {
    let segment = |value: UntypedExpr, options: Vec<BitArrayOption<UntypedExpr>>| BitArraySegment {
        value: Box::new(value),
        options,
    };
    let expr = UntypedExpr::BitArray {
        location: nowhere(),
        segments: vec![
            segment(number("1"), vec![]),
            segment(
                var("x"),
                vec![
                    BitArrayOption::Size { value: Box::new(number("8")), short_form: false },
                    BitArrayOption::Unit { value: 2 },
                ],
            ),
            segment(
                var("y"),
                vec![BitArrayOption::Size { value: Box::new(number("16")), short_form: true }],
            ),
            segment(text_literal("z"), vec![BitArrayOption::Utf8]),
            segment(
                binop(BinOp::AddInt, var("a"), var("b")),
                vec![BitArrayOption::Little, BitArrayOption::Signed, BitArrayOption::Int],
            ),
        ],
    };
    assert_eq!(
        expr_text(&expr),
        "<<1, x:size(8)-unit(2), y:16, \"z\":utf8, { a + b }:little-signed-int>>"
    );
    let empty = UntypedExpr::BitArray { location: nowhere(), segments: vec![] };
    assert_eq!(expr_text(&empty), "<<>>");
}

#[test]
fn every_segment_option_has_its_keyword() {
    let options: Vec<(BitArrayOption<Constant>, &str)> = vec![
        (BitArrayOption::Binary, "bytes"),
        (BitArrayOption::Bytes, "bytes"),
        (BitArrayOption::BitString, "bits"),
        (BitArrayOption::Bits, "bits"),
        (BitArrayOption::Int, "int"),
        (BitArrayOption::Float, "float"),
        (BitArrayOption::Utf8, "utf8"),
        (BitArrayOption::Utf16, "utf16"),
        (BitArrayOption::Utf32, "utf32"),
        (BitArrayOption::Utf8Codepoint, "utf8_codepoint"),
        (BitArrayOption::Utf16Codepoint, "utf16_codepoint"),
        (BitArrayOption::Utf32Codepoint, "utf32_codepoint"),
        (BitArrayOption::Signed, "signed"),
        (BitArrayOption::Unsigned, "unsigned"),
        (BitArrayOption::Big, "big"),
        (BitArrayOption::Little, "little"),
        (BitArrayOption::Native, "native"),
        (BitArrayOption::Unit { value: 255 }, "unit(255)"),
    ];
    for (option, keyword) in options {
        let doc = gleam_format::segment::segment_option(&option, gleam_format::pretty::nil());
        assert_eq!(show(doc), keyword);
    }
}

#[test]
fn statements_keep_one_blank_line_where_the_source_had_some() {
    let statements = vec![
        Statement::Expression(var_at("a", 0, 1)),
        Statement::Expression(var_at("b", 10, 11)),
        Statement::Expression(var_at("c", 12, 13)),
    ];
    let one = Intermediate { empty_lines: &[2], ..no_trivia() };
    assert_eq!(statements_text(&statements, &one), "a\n\nb\nc");
    let many = Intermediate { empty_lines: &[2, 3, 4, 5], ..no_trivia() };
    assert_eq!(statements_text(&statements, &many), "a\n\nb\nc");
    assert_eq!(statements_text(&statements, &no_trivia()), "a\nb\nc");
}

#[test]
fn a_comment_before_a_statement_stands_above_it() {
    let statements = vec![
        Statement::Expression(var_at("a", 0, 1)),
        Statement::Expression(var_at("b", 20, 21)),
    ];
    let extra = Intermediate {
        comments: vec![Comment { start: 5, content: " about b" }],
        ..no_trivia()
    };
    assert_eq!(statements_text(&statements, &extra), "a\n// about b\nb");
}

#[test]
fn assignments() {
    let simple = Assignment {
        location: nowhere(),
        value: Box::new(number("1")),
        pattern: variable("x"),
        kind: AssignmentKind::Let,
        annotation: Some(named("Int")),
    };
    let asserted = Assignment {
        location: nowhere(),
        value: Box::new(call(var("f"), vec![])),
        pattern: Pattern::Constructor {
            location: nowhere(),
            name: "Ok".to_string(),
            arguments: vec![CallArg { label: None, location: nowhere(), value: variable("x") }],
            module: None,
            with_spread: false,
        },
        kind: AssignmentKind::Assert,
        annotation: None,
    };
    let statements = vec![Statement::Assignment(simple), Statement::Assignment(asserted)];
    assert_eq!(
        statements_text(&statements, &no_trivia()),
        "let x: Int = 1\nlet assert Ok(x) = f()"
    );
}

#[test]
fn an_assigned_case_starts_on_the_same_line() {
    let value = UntypedExpr::Case {
        location: nowhere(),
        subjects: vec![var("y")],
        clauses: vec![clause(variable("a"), number("1"))],
    };
    let assignment = Assignment {
        location: nowhere(),
        value: Box::new(value),
        pattern: variable("x"),
        kind: AssignmentKind::Let,
        annotation: None,
    };
    assert_eq!(
        statements_text(&vec![Statement::Assignment(assignment)], &no_trivia()),
        "let x = case y {\n  a -> 1\n}"
    );
}

#[test]
fn use_expressions() {
    let bare = Use { location: nowhere(), call: Box::new(call(var("f"), vec![])), assignments: vec![] };
    let with_patterns = Use {
        location: nowhere(),
        call: Box::new(call(var("g"), vec![positional(number("1"))])),
        assignments: vec![
            UseAssignment { location: nowhere(), pattern: variable("a"), annotation: None },
            UseAssignment {
                location: nowhere(),
                pattern: variable("b"),
                annotation: Some(named("Int")),
            },
        ],
    };
    let statements = vec![Statement::Use(bare), Statement::Use(with_patterns)];
    assert_eq!(statements_text(&statements, &no_trivia()), "use <- f()\nuse a, b: Int <- g(1)");
}

#[test]
fn patterns() {
    let list_pattern = Pattern::List {
        location: nowhere(),
        elements: vec![variable("a"), variable("b")],
        tail: Some(Box::new(Pattern::Discard { location: nowhere(), name: "_".to_string() })),
    };
    assert_eq!(pattern_text(&list_pattern), "[a, b, ..]");
    let named_tail = Pattern::List {
        location: nowhere(),
        elements: vec![variable("a")],
        tail: Some(Box::new(variable("rest"))),
    };
    assert_eq!(pattern_text(&named_tail), "[a, ..rest]");
    let empty = Pattern::List { location: nowhere(), elements: vec![], tail: None };
    assert_eq!(pattern_text(&empty), "[]");
    let assign = Pattern::Assign {
        location: nowhere(),
        name: "all".to_string(),
        pattern: Box::new(Pattern::Tuple {
            location: nowhere(),
            elems: vec![variable("a"), Pattern::Int { location: nowhere(), value: "10000".to_string() }],
        }),
    };
    assert_eq!(pattern_text(&assign), "#(a, 10_000) as all");
    let prefix = Pattern::StringPrefix {
        location: nowhere(),
        left_side_string: "Hello, ".to_string(),
        left_side_assignment: Some("greeting".to_string()),
        right_side_assignment: AssignName::Variable("name".to_string()),
    };
    assert_eq!(pattern_text(&prefix), "\"Hello, \" as greeting <> name");
    let plain_prefix = Pattern::StringPrefix {
        location: nowhere(),
        left_side_string: "x".to_string(),
        left_side_assignment: None,
        right_side_assignment: AssignName::Discard("_".to_string()),
    };
    assert_eq!(pattern_text(&plain_prefix), "\"x\" <> _");
}

#[test]
fn constructor_patterns() {
    let constructor = |arguments: Vec<CallArg<Pattern>>, module: Option<&str>, with_spread: bool| {
        Pattern::Constructor {
            location: nowhere(),
            name: "Box".to_string(),
            arguments,
            module: module.map(|m| m.to_string()),
            with_spread,
        }
    };
    let arg = |label: Option<&str>, value: Pattern| CallArg {
        label: label.map(|l| l.to_string()),
        location: nowhere(),
        value,
    };
    assert_eq!(pattern_text(&constructor(vec![], None, false)), "Box");
    assert_eq!(pattern_text(&constructor(vec![], Some("m"), true)), "m.Box(..)");
    assert_eq!(
        pattern_text(&constructor(vec![arg(Some("value"), variable("v"))], None, true)),
        "Box(value: v, ..)"
    );
    assert_eq!(
        pattern_text(&constructor(vec![arg(None, variable("a")), arg(None, variable("b"))], None, false)),
        "Box(a, b)"
    );
    let nested = Pattern::Tuple { location: nowhere(), elems: vec![variable("a")] };
    assert_eq!(pattern_text(&constructor(vec![arg(None, nested)], None, false)), "Box(#(a))");
    let bits = Pattern::BitArray {
        location: nowhere(),
        segments: vec![BitArraySegment {
            value: Box::new(variable("x")),
            options: vec![BitArrayOption::Size {
                value: Box::new(Pattern::Int { location: nowhere(), value: "8".to_string() }),
                short_form: false,
            }],
        }],
    };
    assert_eq!(pattern_text(&bits), "<<x:size(8)>>");
}

#[test]
fn constants() {
    let record = Constant::Record {
        module: Some("m".to_string()),
        name: "Box".to_string(),
        args: vec![
            CallArg { label: Some("a".to_string()), location: nowhere(), value: Constant::Int { value: "1".to_string() } },
            CallArg { label: None, location: nowhere(), value: Constant::Var { module: None, name: "x".to_string() } },
        ],
    };
    assert_eq!(show(gleam_format::constant::const_expr(&record)), "m.Box(a: 1, x)");
    let bare = Constant::Record { module: None, name: "None".to_string(), args: vec![] };
    assert_eq!(show(gleam_format::constant::const_expr(&bare)), "None");
    let qualified = Constant::Var { module: Some("m".to_string()), name: "x".to_string() };
    assert_eq!(show(gleam_format::constant::const_expr(&qualified)), "m.x");
    let tuple = Constant::Tuple {
        elements: vec![Constant::Float { value: "1.50".to_string() }, Constant::String { value: "s".to_string() }],
    };
    assert_eq!(show(gleam_format::constant::const_expr(&tuple)), "#(1.5, \"s\")");
    let list = Constant::List { elements: vec![] };
    assert_eq!(show(gleam_format::constant::const_expr(&list)), "[]");
    let bits = Constant::BitArray {
        segments: vec![BitArraySegment {
            value: Box::new(Constant::Int { value: "1".to_string() }),
            options: vec![BitArrayOption::Size {
                value: Box::new(Constant::Int { value: "8".to_string() }),
                short_form: true,
            }],
        }],
    };
    assert_eq!(show(gleam_format::constant::const_expr(&bits)), "<<1:8>>");
}

#[test]
fn a_long_list_of_simple_constants_packs_its_lines() {
    let elements: Vec<Constant> = (0..40).map(|_| Constant::Int { value: "1000".to_string() }).collect();
    let text = show(gleam_format::constant::const_list(&elements));
    let lines: Vec<&str> = text.split('\n').collect();
    assert_eq!(lines.len(), 6);
    assert_eq!(lines[1], format!("  {},", vec!["1000"; 13].join(", ")));
}

#[test]
fn simple_is_recursive() {
    let one = || Constant::Int { value: "1".to_string() };
    assert!(one().is_simple());
    assert!(Constant::Var { module: None, name: "x".to_string() }.is_simple());
    assert!(!Constant::Var { module: Some("m".to_string()), name: "x".to_string() }.is_simple());
    assert!(Constant::Tuple { elements: vec![one(), Constant::List { elements: vec![one()] }] }.is_simple());
    assert!(!Constant::Record { module: None, name: "X".to_string(), args: vec![] }.is_simple());
    assert!(!Constant::List { elements: vec![Constant::BitArray { segments: vec![] }] }.is_simple());
    assert!(number("1").is_simple_constant());
    assert!(var("x").is_simple_constant());
    assert!(tuple(vec![number("1"), list(vec![text_literal("a")])]).is_simple_constant());
    assert!(!call(var("f"), vec![]).is_simple_constant());
    assert!(!list(vec![call(var("f"), vec![])]).is_simple_constant());
    let with_tail = UntypedExpr::List {
        location: nowhere(),
        elements: vec![number("1")],
        tail: Some(Box::new(var("rest"))),
    };
    assert!(!with_tail.is_simple_constant());
}

#[test]
fn types() {
    let function = TypeAst::Fn {
        arguments: vec![named("Int"), TypeAst::Var { name: "a".to_string() }],
        return_: Box::new(TypeAst::Tuple { elems: vec![named("Int"), TypeAst::Hole { name: "_".to_string() }] }),
    };
    assert_eq!(show(gleam_format::types::type_ast(&function)), "fn(Int, a) -> #(Int, _)");
    let qualified = TypeAst::Constructor {
        module: Some("option".to_string()),
        name: "Option".to_string(),
        arguments: vec![named("Int")],
    };
    assert_eq!(show(gleam_format::types::type_ast(&qualified)), "option.Option(Int)");
}

#[test]
fn a_function_definition() {
    let definition = Definition::Function(Function {
        arguments: vec![Arg {
            names: ArgNames::NamedLabelled { label: "with".to_string(), name: "x".to_string() },
            location: nowhere(),
            annotation: Some(named("Int")),
        }],
        return_annotation: Some(named("Int")),
        ..function("main", vec![Statement::Expression(var("x"))])
    });
    assert_eq!(definition_text(&definition), "pub fn main(with x: Int) -> Int {\n  x\n}");
}

#[test]
fn a_function_without_a_body_is_its_signature() {
    let definition = Definition::Function(Function {
        return_annotation: Some(named("Int")),
        external_erlang: Some(("mod".to_string(), "fun".to_string())),
        external_javascript: Some(("./mod.mjs".to_string(), "fun".to_string())),
        deprecation: Deprecation::Deprecated { message: "use other".to_string() },
        ..function("stub", vec![Statement::Expression(UntypedExpr::Placeholder { location: nowhere() })])
    });
    assert_eq!(
        definition_text(&definition),
        "@deprecated(\"use other\")\n@external(erlang, \"mod\", \"fun\")\n@external(javascript, \"./mod.mjs\", \"fun\")\npub fn stub() -> Int"
    );
}

#[test]
fn trailing_comments_stay_inside_the_function() {
    let definition = Function {
        location: at(0, 10),
        end_position: 50,
        ..function("main", vec![Statement::Expression(var_at("x", 15, 16))])
    };
    let extra = Intermediate {
        comments: vec![Comment { start: 30, content: " the end" }],
        ..no_trivia()
    };
    let doc = Formatter::with_comments(&extra).statement_fn(&definition);
    assert_eq!(show(doc), "pub fn main() {\n  x\n  // the end\n}");
}

#[test]
fn a_type_alias() {
    let mut formatter = Formatter::new();
    let typ = TypeAst::Constructor {
        module: None,
        name: "List".to_string(),
        arguments: vec![TypeAst::Var { name: "a".to_string() }],
    };
    let args = vec!["a".to_string()];
    let doc = formatter.type_alias(true, "Many", &args, &typ, &Deprecation::NotDeprecated);
    assert_eq!(show(doc), "pub type Many(a) =\n  List(a)");
    let definition = Definition::TypeAlias(TypeAlias {
        location: nowhere(),
        alias: "Id".to_string(),
        parameters: vec![],
        type_ast: named("Int"),
        public: false,
        deprecation: Deprecation::NotDeprecated,
    });
    assert_eq!(definition_text(&definition), "type Id =\n  Int");
}

#[test]
fn a_custom_type() {
    let custom = CustomType {
        location: nowhere(),
        end_position: 0,
        name: "Option".to_string(),
        public: true,
        constructors: vec![
            RecordConstructor {
                location: nowhere(),
                name: "Some".to_string(),
                arguments: vec![RecordConstructorArg {
                    label: Some("value".to_string()),
                    ast: TypeAst::Var { name: "a".to_string() },
                    location: nowhere(),
                }],
            },
            RecordConstructor { location: nowhere(), name: "None".to_string(), arguments: vec![] },
        ],
        opaque: false,
        parameters: vec!["a".to_string()],
        deprecation: Deprecation::NotDeprecated,
    };
    let doc = Formatter::new().custom_type(&custom);
    assert_eq!(show(doc), "pub type Option(a) {\n  Some(value: a)\n  None\n}");
}

#[test]
fn a_custom_type_without_constructors() {
    let custom = CustomType {
        location: nowhere(),
        end_position: 0,
        name: "Hidden".to_string(),
        public: true,
        constructors: vec![],
        opaque: true,
        parameters: vec![],
        deprecation: Deprecation::NotDeprecated,
    };
    assert_eq!(definition_text(&Definition::CustomType(custom)), "pub opaque type Hidden");
}

#[test]
fn constructors_keep_their_doc_comments_and_blank_lines() {
    let custom = CustomType {
        location: at(0, 5),
        end_position: 100,
        name: "T".to_string(),
        public: false,
        constructors: vec![
            RecordConstructor { location: at(20, 21), name: "A".to_string(), arguments: vec![] },
            RecordConstructor { location: at(40, 41), name: "B".to_string(), arguments: vec![] },
        ],
        opaque: false,
        parameters: vec![],
        deprecation: Deprecation::NotDeprecated,
    };
    let extra = Intermediate {
        comments: vec![Comment { start: 60, content: " trailing" }],
        doc_comments: vec![Comment { start: 10, content: " first" }],
        module_comments: vec![],
        empty_lines: &[30],
    };
    let doc = Formatter::with_comments(&extra).custom_type(&custom);
    assert_eq!(show(doc), "type T {\n  /// first\n  A\n\n  B\n  // trailing\n}");
}

#[test]
fn a_record_constructor_alone() {
    let constructor = RecordConstructor {
        location: nowhere(),
        name: "Pair".to_string(),
        arguments: vec![
            RecordConstructorArg { label: None, ast: named("Int"), location: nowhere() },
            RecordConstructorArg { label: Some("b".to_string()), ast: named("Int"), location: nowhere() },
        ],
    };
    assert_eq!(show(Formatter::new().record_constructor(&constructor)), "Pair(Int, b: Int)");
}

#[test]
fn imports_list_types_first_and_sort_by_name() {
    let definition = Definition::Import(Import {
        as_name: Some(AssignName::Variable("out".to_string())),
        unqualified_values: vec![
            unqualified("println"),
            UnqualifiedImport { as_name: Some("dbg".to_string()), ..unqualified("debug") },
        ],
        unqualified_types: vec![unqualified("Writer"), unqualified("Reader")],
        ..import("gleam/io")
    });
    assert_eq!(
        definition_text(&definition),
        "import gleam/io.{type Reader, type Writer, debug as dbg, println} as out"
    );
}

#[test]
fn names_are_sorted_by_code_point() {
    let definition = Definition::Import(Import {
        unqualified_values: vec![
            unqualified("b"),
            unqualified("a"),
            unqualified("B"),
            unqualified("ab"),
            unqualified("aa"),
            unqualified("_x"),
        ],
        ..import("m")
    });
    assert_eq!(definition_text(&definition), "import m.{B, _x, a, aa, ab, b}");
}

#[test]
fn imports_of_one_name_keep_their_order() {
    let definition = Definition::Import(Import {
        unqualified_values: vec![
            UnqualifiedImport { as_name: Some("second".to_string()), ..unqualified("x") },
            unqualified("a"),
            UnqualifiedImport { as_name: Some("first".to_string()), ..unqualified("x") },
        ],
        ..import("m")
    });
    assert_eq!(definition_text(&definition), "import m.{a, x as second, x as first}");
}

#[test]
fn a_module_constant() {
    let definition = Definition::ModuleConstant(ModuleConstant {
        location: nowhere(),
        public: true,
        name: "limit".to_string(),
        annotation: Some(named("Int")),
        value: Constant::Int { value: "100000".to_string() },
    });
    assert_eq!(definition_text(&definition), "pub const limit: Int = 100_000");
}

#[test]
fn documentation_entries() {
    let mut formatter = Formatter::new();
    let args = vec![
        TypedArg { names: ArgNames::Named { name: "a".to_string() }, type_: "Int".to_string() },
        TypedArg {
            names: ArgNames::LabelledDiscard { label: "with".to_string(), name: "_b".to_string() },
            type_: "String".to_string(),
        },
    ];
    assert_eq!(show(formatter.docs_fn_args(&args)), "(a: Int, with _b: String)");
    assert_eq!(
        show(formatter.docs_fn_signature(true, "f", &args, "Bool")),
        "pub fn f(a: Int, with _b: String) -> Bool"
    );
    let constant = TypedConstant { value: Constant::Int { value: "1".to_string() }, type_: "Int".to_string() };
    assert_eq!(show(formatter.docs_const_expr(false, "one", &constant)), "const one: Int = 1");
    let parameters = vec!["a".to_string(), "b".to_string()];
    let location = nowhere();
    assert_eq!(
        show(formatter.docs_opaque_custom_type(true, "Box", &parameters, &location)),
        "pub opaque type Box(a, b)"
    );
    let none: Vec<String> = vec![];
    assert_eq!(
        show(formatter.docs_opaque_custom_type(false, "Box", &none, &location)),
        "opaque type Box"
    );
}

#[test]
fn blocks_by_hand() {
    assert_eq!(show(gleam_format::wrap::wrap_block(gleam_format::pretty::text("x")).group()), "{ x }");
    assert_eq!(show(gleam_format::wrap::break_block(gleam_format::pretty::text("x"))), "{\n  x\n}");
    assert_eq!(show(gleam_format::wrap::wrap_args(vec![])), "()");
    assert_eq!(
        show(gleam_format::wrap::wrap_args(vec![gleam_format::pretty::text("a"), gleam_format::pretty::text("b")]).group()),
        "(a, b)"
    );
    assert_eq!(show(gleam_format::wrap::wrap_args_with_spread(vec![])), "()");
    assert_eq!(
        show(gleam_format::wrap::wrap_args_with_spread(vec![gleam_format::pretty::text("a")])),
        "(a, ..)"
    );
}

#[test]
fn a_module_separates_definitions_by_blank_lines_and_clusters_imports() {
    let module = UntypedModule {
        definitions: vec![
            untargeted(Definition::Import(import("a"))),
            untargeted(Definition::Import(import("b"))),
            untargeted(Definition::Function(function("one", vec![Statement::Expression(number("1"))]))),
            TargetedDefinition {
                definition: Definition::Function(function("two", vec![Statement::Expression(number("2"))])),
                target: Some(Target::JavaScript),
            },
            untargeted(Definition::Import(import("c"))),
        ],
    };
    assert_eq!(
        module_text(&module, &no_trivia()),
        "import a\nimport b\n\npub fn one() {\n  1\n}\n\n@target(javascript)\npub fn two() {\n  2\n}\n\nimport c\n"
    );
}

#[test]
fn an_empty_module_is_one_newline() {
    assert_eq!(module_text(&UntypedModule { definitions: vec![] }, &no_trivia()), "\n");
}

#[test]
fn every_kind_of_comment_finds_its_place_in_a_module() {
    let module = UntypedModule {
        definitions: vec![
            untargeted(Definition::Function(Function {
                location: at(40, 60),
                end_position: 70,
                ..function("one", vec![Statement::Expression(var_at("x", 62, 63))])
            })),
            TargetedDefinition {
                definition: Definition::ModuleConstant(ModuleConstant {
                    location: at(100, 120),
                    public: false,
                    name: "c".to_string(),
                    annotation: None,
                    value: Constant::Int { value: "1".to_string() },
                }),
                target: Some(Target::Erlang),
            },
        ],
    };
    let extra = Intermediate {
        comments: vec![
            Comment { start: 20, content: " before one" },
            Comment { start: 65, content: " inside one" },
            Comment { start: 80, content: " before c" },
            Comment { start: 200, content: " at the end" },
        ],
        doc_comments: vec![
            Comment { start: 30, content: " documents one" },
            Comment { start: 300, content: " documents nothing" },
        ],
        module_comments: vec![Comment { start: 0, content: " about the module" }],
        empty_lines: &[10, 75],
    };
    assert_eq!(
        module_text(&module, &extra),
        "//// about the module\n\n// before one\n/// documents one\npub fn one() {\n  x\n  // inside one\n}\n\n// before c\n@target(erlang)\nconst c = 1\n/// documents nothing\n// at the end\n"
    );
}

#[test]
fn comments_of_a_module_without_definitions_are_printed() {
    let extra = Intermediate {
        comments: vec![Comment { start: 0, content: " a" }, Comment { start: 10, content: " b" }],
        empty_lines: &[5],
        ..no_trivia()
    };
    assert_eq!(module_text(&UntypedModule { definitions: vec![] }, &extra), "// a\n\n// b\n");
}

#[test]
fn placeholders_are_not_printable() {
    let placeholder = || UntypedExpr::Placeholder { location: nowhere() };
    assert!(!placeholder().is_printable());
    assert!(!binop(BinOp::AddInt, number("1"), placeholder()).is_printable());
    assert!(!call(placeholder(), vec![]).is_printable());
    assert!(!call(var("f"), vec![positional(placeholder())]).is_printable());
    assert!(!list(vec![number("1"), placeholder()]).is_printable());
    assert!(!block(vec![]).is_printable());
    assert!(!UntypedExpr::PipeLine { expressions: vec![] }.is_printable());
    assert!(!capture(var("f")).is_printable());
    assert!(!UntypedExpr::PipeLine { expressions: vec![var("x"), capture(var("f"))] }.is_printable());
    assert!(capture(call(var("f"), vec![positional(hole())])).is_printable());
    let stub = function("stub", vec![Statement::Expression(placeholder())]);
    assert!(stub.is_printable());
    let broken = function("broken", vec![Statement::Expression(number("1")), Statement::Expression(placeholder())]);
    assert!(!broken.is_printable());
    assert!(!UntypedModule { definitions: vec![untargeted(Definition::Function(broken))] }.is_printable());
}

#[test]
fn a_very_long_list_is_formatted() {
    let items: Vec<UntypedExpr> = (0..100_000).map(|_| number("1000")).collect();
    let text = expr_text(&list(items));
    let lines: Vec<&str> = text.split('\n').collect();
    assert_eq!(lines.len(), 100_000 / 13 + 1 + 2);
    assert_eq!(lines[1], format!("  {},", vec!["1000"; 13].join(", ")));
    assert_eq!(lines[lines.len() - 2], format!("  {},", vec!["1000"; 4].join(", ")));
}

#[test]
fn a_very_long_body_is_formatted() {
    let statements: Vec<Statement> =
        (0..50_000).map(|_| Statement::Expression(call(var("f"), vec![]))).collect();
    let text = statements_text(&statements, &no_trivia());
    assert_eq!(text.len(), 50_000 * 4 - 1);
    assert!(text.starts_with("f()\nf()\n"));
}

#[test]
fn a_copy_of_a_document_renders_alike() {
    let expr = call(var("f"), vec![positional(number("100000")), positional(text_literal("a"))]);
    let mut formatter = Formatter::new();
    let doc = formatter.expr(&expr);
    let copy = doc.clone();
    assert_eq!(copy, doc);
    assert_eq!(show(copy), "f(100_000, \"a\")");
    assert_eq!(show(doc.duplicate()), "f(100_000, \"a\")");
}

#[test]
fn the_comments_of_a_use_stand_before_its_call() {
    let use_ = Use {
        location: at(10, 40),
        call: Box::new(UntypedExpr::Call {
            location: at(30, 40),
            fun: Box::new(var_at("f", 30, 31)),
            arguments: vec![],
        }),
        assignments: vec![UseAssignment {
            location: at(14, 15),
            pattern: Pattern::Variable { location: at(14, 15), name: "a".to_string() },
            annotation: None,
        }],
    };
    let statements = vec![Statement::Use(use_)];
    let extra = Intermediate {
        comments: vec![
            Comment { start: 0, content: " before" },
            Comment { start: 20, content: " inside" },
        ],
        ..no_trivia()
    };
    assert_eq!(statements_text(&statements, &extra), "// before\nuse a <- // inside\nf()");
}

#[test]
fn comments_keep_their_order_through_a_module() {
    let body = vec![
        Statement::Expression(call(var_at("f", 40, 41), vec![CallArg {
            label: Some("x".to_string()),
            location: at(50, 55),
            value: var_at("a", 53, 54),
        }])),
        Statement::Expression(UntypedExpr::Case {
            location: at(60, 100),
            subjects: vec![var_at("s", 65, 66)],
            clauses: vec![Clause {
                location: at(80, 90),
                pattern: vec![Pattern::Variable { location: at(80, 81), name: "v".to_string() }],
                alternative_patterns: vec![],
                guard: None,
                body: var_at("v", 85, 86),
            }],
        }),
    ];
    let module = UntypedModule {
        definitions: vec![untargeted(Definition::Function(Function {
            location: at(20, 30),
            end_position: 120,
            ..function("main", body)
        }))],
    };
    let comments: Vec<Comment<'_>> = [(5, " one"), (35, " two"), (45, " three"), (70, " four"), (110, " five"), (200, " six")]
        .iter()
        .map(|(start, content)| Comment { start: *start, content })
        .collect();
    let extra = Intermediate { comments, ..no_trivia() };
    let text = module_text(&module, &extra);
    let mut from = 0;
    for comment in [" one", " two", " three", " four", " five", " six"] {
        let at = text[from..].find(&format!("//{}", comment)).expect("the comment is printed");
        from += at + comment.len() + 2;
        assert_eq!(text.matches(&format!("//{}\n", comment)).count(), 1);
    }
    assert_eq!(
        text,
        "// one\npub fn main() {\n  // two\n  f(\n    // three\n    x: a,\n  )\n  case s {\n    // four\n    v -> v\n  }\n  // five\n}\n// six\n"
    );
}

#[test]
fn a_cursor_can_be_copied() {
    let extra = Intermediate {
        comments: vec![Comment { start: 0, content: " a" }],
        ..no_trivia()
    };
    let mut first = Formatter::with_comments(&extra);
    let mut second = first.clone();
    assert_eq!(first.pop_comments(10), vec![Some(" a")]);
    assert_eq!(second.pop_comments(10), vec![Some(" a")]);
    assert!(first.pop_comments(10).is_empty());
    let mut fresh: Formatter<'_> = Default::default();
    assert!(fresh.pop_comments(u32::MAX).is_empty());
}

#[test]
fn a_blank_line_after_the_last_comment_of_a_module_is_kept() {
    let module = UntypedModule {
        definitions: vec![untargeted(Definition::Import(Import { location: at(0, 8), ..import("a") }))],
    };
    let comments = vec![Comment { start: 10, content: " last" }];
    let with_blank = Intermediate { comments: comments.clone(), empty_lines: &[17], ..no_trivia() };
    assert_eq!(module_text(&module, &with_blank), "import a\n// last\n\n\n");
    let without = Intermediate { comments, ..no_trivia() };
    assert_eq!(module_text(&module, &without), "import a\n// last\n");
}

#[test]
fn a_message_of_several_lines_breaks_the_call_around_it() {
    let message = UntypedExpr::Panic { location: nowhere(), message: Some("a\nb".to_string()) };
    assert_eq!(expr_text(&call(var("f"), vec![positional(message)])), "f(\n  panic as \"a\nb\",\n)");
    let message = UntypedExpr::Todo { location: nowhere(), message: Some("a\nb".to_string()) };
    assert_eq!(
        expr_text(&call(var("f"), vec![positional(var("x")), positional(message)])),
        "f(\n  x,\n  todo as \"a\nb\",\n)"
    );
}

#[test]
fn a_blank_line_left_inside_a_statement_counts_before_the_next() {
    let first = UntypedExpr::Call {
        location: at(0, 20),
        fun: Box::new(var_at("f", 0, 1)),
        arguments: vec![CallArg { label: None, location: at(5, 6), value: var_at("a", 5, 6) }],
    };
    let statements =
        vec![Statement::Expression(first), Statement::Expression(var_at("g", 30, 31))];
    let inside = Intermediate { empty_lines: &[10], ..no_trivia() };
    assert_eq!(statements_text(&statements, &inside), "f(a)\n\ng");
    let between = Intermediate { empty_lines: &[21], ..no_trivia() };
    assert_eq!(statements_text(&statements, &between), "f(a)\n\ng");
    let later = Intermediate { empty_lines: &[22], ..no_trivia() };
    assert_eq!(statements_text(&statements, &later), "f(a)\ng");
    assert_eq!(statements_text(&statements, &no_trivia()), "f(a)\ng");
}
