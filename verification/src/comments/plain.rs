//! What is lowered without the cursor holds no buffer: literals, types,
//! constants and guards.

use vstd::multiset::Multiset;
use vstd::prelude::*;
use crate::ast::{BitArrayOption, BitArraySegment, CallArg, ClauseGuard, Constant, TypeAst};
use crate::comments::{all_buffers, buffers, buffers_of_join, buffers_of_pushed, buffers_of_wrapped};
use crate::constant::{
    constant_arg_doc,
    constant_arg_docs,
    constant_doc,
    constant_docs,
    constant_list_doc,
    constant_option_docs,
    constant_segment_doc,
    constant_segment_docs,
    constant_segments_simple,
    constants_simple,
};
use crate::guard::{binary_doc, guard_doc, operator_side_doc};
use crate::literal::{float_doc, int_doc, string_doc};
use crate::pretty::Doc;
use crate::segment::option_doc;
use crate::types::{type_doc, type_docs};
use crate::wrap::comma_doc;

verus! {

/// Whether a document holds no buffer.
pub open spec fn plain(doc: Doc) -> bool {
    buffers(doc) =~= Multiset::empty()
}

/// Whether no document of a list holds a buffer.
pub open spec fn all_plain(docs: Seq<Doc>) -> bool {
    all_buffers(docs) =~= Multiset::empty()
}

/// A literal holds no buffer: its text is borrowed or shared.
pub proof fn literals_are_plain(value: Seq<char>)
    ensures
        plain(int_doc(value)),
        plain(float_doc(value)),
        plain(string_doc(value)),
{
    reveal_with_fuel(buffers, 6);
}

/// An option holds the buffers of the value of its size, and nothing else.
pub proof fn buffers_of_an_option<T>(option: &BitArrayOption<T>, inner: Doc)
    ensures
        option is Size ==> buffers(option_doc(option, inner)) =~= buffers(inner),
        !(option is Size) ==> plain(option_doc(option, inner)),
{
    reveal_with_fuel(buffers, 6);
}

/// An operand in braces holds what the operand holds.
pub proof fn buffers_of_operands(
    name: Seq<char>,
    precedence: u8,
    left: Doc,
    left_precedence: u8,
    right: Doc,
    right_precedence: u8,
)
    ensures
        buffers(operator_side_doc(left, precedence, left_precedence)) =~= buffers(left),
        buffers(binary_doc(name, precedence, left, left_precedence, right, right_precedence))
            =~= buffers(left).add(buffers(right)),
{
    reveal_with_fuel(buffers, 8);
}

/// A list of type annotations holds no buffer.
pub proof fn type_lists_are_plain(types: Seq<TypeAst>, n: int)
    ensures
        all_plain(type_docs(types, n)),
    decreases types, n,
{
    if !(n <= 0 || n > types.len()) {
        type_lists_are_plain(types, n - 1);
        types_are_plain(&types[n - 1]);
        buffers_of_pushed(type_docs(types, n - 1), type_doc(&types[n - 1]));
    }
}

/// A type annotation holds no buffer.
pub proof fn types_are_plain(t: &TypeAst)
    ensures
        plain(type_doc(t)),
    decreases t, 0int,
{
    reveal_with_fuel(buffers, 8);
    match t {
        TypeAst::Hole { .. } | TypeAst::Var { .. } => {},
        TypeAst::Constructor { arguments, .. } => {
            type_lists_are_plain(arguments@, arguments@.len() as int);
            buffers_of_wrapped(type_docs(arguments@, arguments@.len() as int), Doc::Nil, false);
        },
        TypeAst::Fn { arguments, return_ } => {
            type_lists_are_plain(arguments@, arguments@.len() as int);
            buffers_of_wrapped(type_docs(arguments@, arguments@.len() as int), Doc::Nil, false);
            types_are_plain(return_);
        },
        TypeAst::Tuple { elems } => {
            type_lists_are_plain(elems@, elems@.len() as int);
            buffers_of_wrapped(type_docs(elems@, elems@.len() as int), Doc::Nil, false);
        },
    }
}

/// A list of constants holds no buffer.
pub proof fn constant_lists_are_plain(elements: Seq<Constant>, n: int)
    ensures
        all_plain(constant_docs(elements, n)),
    decreases elements, n,
{
    if !(n <= 0 || n > elements.len()) {
        constant_lists_are_plain(elements, n - 1);
        constants_are_plain(&elements[n - 1]);
        buffers_of_pushed(constant_docs(elements, n - 1), constant_doc(&elements[n - 1]));
    }
}

proof fn constant_args_are_plain(args: Seq<CallArg<Constant>>, n: int)
    ensures
        all_plain(constant_arg_docs(args, n)),
    decreases args, n,
{
    reveal_with_fuel(buffers, 4);
    if !(n <= 0 || n > args.len()) {
        constant_args_are_plain(args, n - 1);
        constants_are_plain(&args[n - 1].value);
        buffers_of_pushed(constant_arg_docs(args, n - 1), constant_arg_doc(&args[n - 1]));
    }
}

proof fn constant_options_are_plain(options: Seq<BitArrayOption<Constant>>, n: int)
    ensures
        all_plain(constant_option_docs(options, n)),
    decreases options, n,
{
    if !(n <= 0 || n > options.len()) {
        constant_options_are_plain(options, n - 1);
        let inner = match options[n - 1] {
            BitArrayOption::Size { value, .. } => constant_doc(&*value),
            _ => Doc::Nil,
        };
        match options[n - 1] {
            BitArrayOption::Size { value, .. } => {
                constants_are_plain(&*value);
            },
            _ => {},
        }
        buffers_of_an_option(&options[n - 1], inner);
        buffers_of_pushed(constant_option_docs(options, n - 1), option_doc(&options[n - 1], inner));
    }
}

proof fn constant_segment_is_plain(segment: &BitArraySegment<Constant>)
    ensures
        plain(constant_segment_doc(segment)),
    decreases segment, 0int,
{
    reveal_with_fuel(buffers, 4);
    constants_are_plain(&*segment.value);
    if segment.options@.len() != 0 {
        constant_options_are_plain(segment.options@, segment.options@.len() as int);
        buffers_of_join(
            constant_option_docs(segment.options@, segment.options@.len() as int),
            Doc::text("-"@),
        );
    }
}

proof fn constant_segments_are_plain(segments: Seq<BitArraySegment<Constant>>, n: int)
    ensures
        all_plain(constant_segment_docs(segments, n)),
    decreases segments, n,
{
    if !(n <= 0 || n > segments.len()) {
        constant_segments_are_plain(segments, n - 1);
        constant_segment_is_plain(&segments[n - 1]);
        buffers_of_pushed(
            constant_segment_docs(segments, n - 1),
            constant_segment_doc(&segments[n - 1]),
        );
    }
}

/// A constant holds no buffer.
pub proof fn constants_are_plain(c: &Constant)
    ensures
        plain(constant_doc(c)),
    decreases c, 0int,
{
    reveal_with_fuel(buffers, 8);
    match c {
        Constant::Int { value } | Constant::Float { value } | Constant::String { value } => {
            literals_are_plain(value@);
        },
        Constant::List { elements } => {
            if elements@.len() != 0 {
                constant_lists_are_plain(elements@, elements@.len() as int);
                let simple = constants_simple(elements@, elements@.len() as int);
                buffers_of_wrapped(Seq::empty(), Doc::Nil, simple);
                buffers_of_join(
                    constant_docs(elements@, elements@.len() as int),
                    comma_doc(simple),
                );
                assert(plain(constant_list_doc(elements@)));
            }
        },
        Constant::Tuple { elements } => {
            constant_lists_are_plain(elements@, elements@.len() as int);
            buffers_of_wrapped(constant_docs(elements@, elements@.len() as int), Doc::Nil, false);
        },
        Constant::BitArray { segments } => {
            constant_segments_are_plain(segments@, segments@.len() as int);
            buffers_of_wrapped(
                constant_segment_docs(segments@, segments@.len() as int),
                Doc::Nil,
                constant_segments_simple(segments@, segments@.len() as int),
            );
        },
        Constant::Record { args, .. } => {
            constant_args_are_plain(args@, args@.len() as int);
            buffers_of_wrapped(constant_arg_docs(args@, args@.len() as int), Doc::Nil, false);
        },
        Constant::Var { .. } => {},
    }
}

/// A clause guard holds no buffer.
pub proof fn guards_are_plain(guard: &ClauseGuard)
    ensures
        plain(guard_doc(guard)),
    decreases guard,
{
    reveal_with_fuel(buffers, 8);
    match guard {
        ClauseGuard::And { left, right }
        | ClauseGuard::Or { left, right }
        | ClauseGuard::Equals { left, right }
        | ClauseGuard::NotEquals { left, right }
        | ClauseGuard::GtInt { left, right }
        | ClauseGuard::GtEqInt { left, right }
        | ClauseGuard::LtInt { left, right }
        | ClauseGuard::LtEqInt { left, right }
        | ClauseGuard::GtFloat { left, right }
        | ClauseGuard::GtEqFloat { left, right }
        | ClauseGuard::LtFloat { left, right }
        | ClauseGuard::LtEqFloat { left, right } => {
            guards_are_plain(left);
            guards_are_plain(right);
            buffers_of_operands(
                guard.spec_bin_op_name()->0.spec_name()@,
                guard.spec_precedence(),
                guard_doc(left),
                left.spec_precedence(),
                guard_doc(right),
                right.spec_precedence(),
            );
        },
        ClauseGuard::Var { .. } | ClauseGuard::ModuleSelect { .. } => {},
        ClauseGuard::TupleIndex { tuple, .. } => {
            guards_are_plain(tuple);
        },
        ClauseGuard::FieldAccess { container, .. } => {
            guards_are_plain(container);
        },
        ClauseGuard::Constant(constant) => {
            constants_are_plain(constant);
        },
        ClauseGuard::Not { expression } => {
            guards_are_plain(expression);
        },
    }
}

} // verus!
