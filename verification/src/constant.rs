//! Lowering of constant expressions.

use vstd::prelude::*;
use vstd::string::*;
use crate::ast::{BitArrayOption, BitArraySegment, CallArg, Constant};
use crate::literal::{float, float_doc, int_, int_doc, string, string_doc};
use crate::pretty::{break_, docs_of, join, nil, text, Doc, Document, INDENT};
use crate::segment::{option_doc, segment_option};
use crate::trivia::push_doc;
use crate::wrap::{bit_array, bit_array_doc, comma, comma_doc, wrap_args, wrap_args_doc};

verus! {

/// Whether the first `n` constants of `elements` are all simple.
pub open spec fn constants_simple(elements: Seq<Constant>, n: int) -> bool
    decreases elements, n,
{
    if n <= 0 || n > elements.len() {
        true
    } else {
        constants_simple(elements, n - 1) && constant_simple(&elements[n - 1])
    }
}

/// A simple constant is a number, a string, a bare name, or a tuple or list of
/// simple constants.
pub open spec fn constant_simple(c: &Constant) -> bool
    decreases c, 0int,
{
    match c {
        Constant::Int { .. } | Constant::Float { .. } | Constant::String { .. } => true,
        Constant::Var { module, .. } => module is None,
        Constant::Tuple { elements } => constants_simple(elements@, elements@.len() as int),
        Constant::List { elements } => constants_simple(elements@, elements@.len() as int),
        Constant::Record { .. } | Constant::BitArray { .. } => false,
    }
}

/// Whether the values of the first `n` segments are all simple.
pub open spec fn constant_segments_simple(
    segments: Seq<BitArraySegment<Constant>>,
    n: int,
) -> bool
    decreases n,
{
    if n <= 0 || n > segments.len() {
        true
    } else {
        constant_segments_simple(segments, n - 1) && constant_simple(&*segments[n - 1].value)
    }
}

/// The documents of the first `n` of `elements`.
pub open spec fn constant_docs(elements: Seq<Constant>, n: int) -> Seq<Doc>
    decreases elements, n,
{
    if n <= 0 || n > elements.len() {
        Seq::empty()
    } else {
        constant_docs(elements, n - 1).push(constant_doc(&elements[n - 1]))
    }
}

/// The document of an argument of a constant record: the value, behind
/// its label where it has one.
pub open spec fn constant_arg_doc(arg: &CallArg<Constant>) -> Doc
    decreases arg, 0int,
{
    match arg.label {
        None => constant_doc(&arg.value),
        Some(label) => Doc::text(label@).append(Doc::text(": "@)).append(constant_doc(&arg.value)),
    }
}

/// The documents of the first `n` of `args`.
pub open spec fn constant_arg_docs(args: Seq<CallArg<Constant>>, n: int) -> Seq<Doc>
    decreases args, n,
{
    if n <= 0 || n > args.len() {
        Seq::empty()
    } else {
        constant_arg_docs(args, n - 1).push(constant_arg_doc(&args[n - 1]))
    }
}

/// The documents of the first `n` options of a constant segment.
pub open spec fn constant_option_docs(options: Seq<BitArrayOption<Constant>>, n: int) -> Seq<Doc>
    decreases options, n,
{
    if n <= 0 || n > options.len() {
        Seq::empty()
    } else {
        let inner = match options[n - 1] {
            BitArrayOption::Size { value, .. } => constant_doc(&*value),
            _ => Doc::Nil,
        };
        constant_option_docs(options, n - 1).push(option_doc(&options[n - 1], inner))
    }
}

/// The document of a segment of a constant bit array: the value, then
/// its options behind a colon, joined by hyphens.
pub open spec fn constant_segment_doc(segment: &BitArraySegment<Constant>) -> Doc
    decreases segment, 0int,
{
    let value = constant_doc(&*segment.value);
    if segment.options@.len() == 0 {
        value
    } else {
        value.append(Doc::text(":"@)).append(
            Doc::join(
                constant_option_docs(segment.options@, segment.options@.len() as int),
                Doc::text("-"@),
            ),
        )
    }
}

/// The documents of the first `n` of `segments`.
pub open spec fn constant_segment_docs(segments: Seq<BitArraySegment<Constant>>, n: int) -> Seq<
    Doc,
>
    decreases segments, n,
{
    if n <= 0 || n > segments.len() {
        Seq::empty()
    } else {
        constant_segment_docs(segments, n - 1).push(constant_segment_doc(&segments[n - 1]))
    }
}

/// The document of a list of constants.
pub open spec fn constant_list_doc(elements: Seq<Constant>) -> Doc
    decreases elements, elements.len() + 1,
{
    if elements.len() == 0 {
        Doc::text("[]"@)
    } else {
        Doc::break_("["@, "["@).append(
            Doc::join(
                constant_docs(elements, elements.len() as int),
                comma_doc(constants_simple(elements, elements.len() as int)),
            ),
        ).nest(INDENT as nat).append(Doc::break_(","@, ""@)).append(Doc::text("]"@)).group()
    }
}

/// The document of a constant expression.
pub open spec fn constant_doc(c: &Constant) -> Doc
    decreases c, 0int,
{
    match c {
        Constant::Int { value } => int_doc(value@),
        Constant::Float { value } => float_doc(value@),
        Constant::String { value } => string_doc(value@),
        Constant::List { elements } => constant_list_doc(elements@),
        Constant::Tuple { elements } => Doc::text("#"@).append(
            wrap_args_doc(constant_docs(elements@, elements@.len() as int)),
        ).group(),
        Constant::BitArray { segments } => bit_array_doc(
            constant_segment_docs(segments@, segments@.len() as int),
            constant_segments_simple(segments@, segments@.len() as int),
        ),
        Constant::Record { module, name, args } => {
            let head = match module {
                None => Doc::text(name@),
                Some(m) => Doc::text(m@).append(Doc::text("."@)).append(Doc::text(name@)),
            };
            if args@.len() == 0 {
                head
            } else {
                head.append(wrap_args_doc(constant_arg_docs(args@, args@.len() as int))).group()
            }
        },
        Constant::Var { module, name } => match module {
            None => Doc::text(name@),
            Some(m) => Doc::text(m@).append(Doc::text("."@)).append(Doc::text(name@)),
        },
    }
}

impl Constant {
    /// Whether the constant is simple: see [`constant_simple`].
    pub fn is_simple(&self) -> (r: bool)
        ensures
            r == constant_simple(self),
        decreases self,
    {
        match self {
            Constant::Int { .. } | Constant::Float { .. } | Constant::String { .. } => true,
            Constant::Var { module, .. } => module.is_none(),
            Constant::Tuple { elements } => all_simple(elements),
            Constant::List { elements } => all_simple(elements),
            Constant::Record { .. } | Constant::BitArray { .. } => false,
        }
    }
}

/// Whether every constant of `elements` is simple.
pub fn all_simple(elements: &Vec<Constant>) -> (r: bool)
    ensures
        r == constants_simple(elements@, elements@.len() as int),
    decreases elements,
{
    let mut i: usize = 0;
    while i < elements.len()
        invariant
            i <= elements@.len(),
            constants_simple(elements@, i as int),
        decreases elements@.len() - i,
    {
        if !elements[i].is_simple() {
            proof {
                if constants_simple(elements@, elements@.len() as int) {
                    simple_prefix(elements@, i + 1, elements@.len() as int);
                }
            }
            return false;
        }
        i += 1;
    }
    true
}

/// Where the first `m` constants are simple, so are the first `n` of them.
proof fn simple_prefix(elements: Seq<Constant>, n: int, m: int)
    requires
        0 <= n <= m <= elements.len(),
        constants_simple(elements, m),
    ensures
        constants_simple(elements, n),
    decreases m - n,
{
    if n < m {
        simple_prefix(elements, n, m - 1);
    }
}

/// Where the first `m` segments are simple, so are the first `n` of them.
proof fn segments_simple_prefix(segments: Seq<BitArraySegment<Constant>>, n: int, m: int)
    requires
        0 <= n <= m <= segments.len(),
        constant_segments_simple(segments, m),
    ensures
        constant_segments_simple(segments, n),
    decreases m - n,
{
    if n < m {
        segments_simple_prefix(segments, n, m - 1);
    }
}

/// Whether the values of the segments are all simple.
fn segments_simple(segments: &Vec<BitArraySegment<Constant>>) -> (r: bool)
    ensures
        r == constant_segments_simple(segments@, segments@.len() as int),
{
    let mut i: usize = 0;
    while i < segments.len()
        invariant
            i <= segments@.len(),
            constant_segments_simple(segments@, i as int),
        decreases segments@.len() - i,
    {
        if !segments[i].value.is_simple() {
            proof {
                if constant_segments_simple(segments@, segments@.len() as int) {
                    segments_simple_prefix(segments@, i + 1, segments@.len() as int);
                }
            }
            return false;
        }
        i += 1;
    }
    true
}

/// Lowers a constant expression.
pub fn const_expr<'a>(value: &'a Constant) -> (r: Document<'a>)
    ensures
        r@ == constant_doc(value),
    decreases value, 0int,
{
    match value {
        Constant::Int { value } => int_(value.as_str()),
        Constant::Float { value } => float(value.as_str()),
        Constant::String { value } => string(value.as_str()),
        Constant::List { elements } => const_list(elements),
        Constant::Tuple { elements } => text("#").append(wrap_args(const_exprs(elements))).group(),
        Constant::BitArray { segments } => bit_array(
            constant_segments(segments),
            segments_simple(segments),
        ),
        Constant::Record { module, name, args } => {
            let head = match module {
                None => text(name.as_str()),
                Some(m) => text(m.as_str()).append(text(".")).append(text(name.as_str())),
            };
            if args.len() == 0 {
                head
            } else {
                head.append(wrap_args(constant_call_args(args))).group()
            }
        },
        Constant::Var { module, name } => match module {
            None => text(name.as_str()),
            Some(m) => text(m.as_str()).append(text(".")).append(text(name.as_str())),
        },
    }
}

/// Lowers each of `elements`.
fn const_exprs<'a>(elements: &'a Vec<Constant>) -> (r: Vec<Document<'a>>)
    ensures
        docs_of(r@) == constant_docs(elements@, elements@.len() as int),
    decreases elements, 0int,
{
    let mut docs: Vec<Document<'a>> = Vec::new();
    let mut i: usize = 0;
    assert(docs_of(docs@) =~= constant_docs(elements@, 0));
    while i < elements.len()
        invariant
            i <= elements@.len(),
            docs_of(docs@) == constant_docs(elements@, i as int),
        decreases elements@.len() - i,
    {
        push_doc(&mut docs, const_expr(&elements[i]));
        i += 1;
    }
    docs
}

/// Lowers each segment of a constant bit array.
fn constant_segments<'a>(segments: &'a Vec<BitArraySegment<Constant>>) -> (r: Vec<Document<'a>>)
    ensures
        docs_of(r@) == constant_segment_docs(segments@, segments@.len() as int),
    decreases segments, 0int,
{
    let mut docs: Vec<Document<'a>> = Vec::new();
    let mut i: usize = 0;
    assert(docs_of(docs@) =~= constant_segment_docs(segments@, 0));
    while i < segments.len()
        invariant
            i <= segments@.len(),
            docs_of(docs@) == constant_segment_docs(segments@, i as int),
        decreases segments@.len() - i,
    {
        push_doc(&mut docs, constant_segment(&segments[i]));
        i += 1;
    }
    docs
}

/// Lowers each argument of a constant record.
fn constant_call_args<'a>(args: &'a Vec<CallArg<Constant>>) -> (r: Vec<Document<'a>>)
    ensures
        docs_of(r@) == constant_arg_docs(args@, args@.len() as int),
    decreases args, 0int,
{
    let mut docs: Vec<Document<'a>> = Vec::new();
    let mut i: usize = 0;
    assert(docs_of(docs@) =~= constant_arg_docs(args@, 0));
    while i < args.len()
        invariant
            i <= args@.len(),
            docs_of(docs@) == constant_arg_docs(args@, i as int),
        decreases args@.len() - i,
    {
        push_doc(&mut docs, constant_call_arg(&args[i]));
        i += 1;
    }
    docs
}

/// Lowers a list of constants.
pub fn const_list<'a>(elements: &'a Vec<Constant>) -> (r: Document<'a>)
    ensures
        r@ == constant_list_doc(elements@),
    decreases elements, 1int,
{
    if elements.len() == 0 {
        return text("[]");
    }
    let separator = comma(all_simple(elements));
    break_("[", "[").append(join(const_exprs(elements), separator)).nest(INDENT).append(
        break_(",", ""),
    ).append(text("]")).group()
}

/// Lowers an argument of a constant record.
pub fn constant_call_arg<'a>(arg: &'a CallArg<Constant>) -> (r: Document<'a>)
    ensures
        r@ == constant_arg_doc(arg),
    decreases arg, 0int,
{
    match &arg.label {
        None => const_expr(&arg.value),
        Some(label) => text(label.as_str()).append(text(": ")).append(const_expr(&arg.value)),
    }
}

/// Lowers a segment of a constant bit array.
fn constant_segment<'a>(segment: &'a BitArraySegment<Constant>) -> (r: Document<'a>)
    ensures
        r@ == constant_segment_doc(segment),
    decreases segment, 0int,
{
    let value = const_expr(&segment.value);
    if segment.options.len() == 0 {
        return value;
    }
    let options = &segment.options;
    let mut docs: Vec<Document<'a>> = Vec::new();
    let mut i: usize = 0;
    assert(docs_of(docs@) =~= constant_option_docs(options@, 0));
    while i < options.len()
        invariant
            i <= options@.len(),
            options == &segment.options,
            docs_of(docs@) == constant_option_docs(options@, i as int),
        decreases options@.len() - i,
    {
        let inner = match &options[i] {
            BitArrayOption::Size { value, .. } => const_expr(value),
            _ => nil(),
        };
        push_doc(&mut docs, segment_option(&options[i], inner));
        i += 1;
    }
    value.append(text(":")).append(join(docs, text("-")))
}

} // verus!
