//! Lowering of type annotations.

use vstd::prelude::*;
use vstd::string::*;
use crate::ast::TypeAst;
use crate::pretty::{break_, docs_of, text, Doc, Document, INDENT};
use crate::trivia::push_doc;
use crate::wrap::{wrap_args, wrap_args_doc};

verus! {

/// The documents of the first `n` types of `types`.
pub open spec fn type_docs(types: Seq<TypeAst>, n: int) -> Seq<Doc>
    decreases types, n,
{
    if n <= 0 || n > types.len() {
        Seq::empty()
    } else {
        type_docs(types, n - 1).push(type_doc(&types[n - 1]))
    }
}

/// The document of a type annotation.
pub open spec fn type_doc(t: &TypeAst) -> Doc
    decreases t, 0int,
{
    (match t {
        TypeAst::Hole { name } => Doc::text(name@),
        TypeAst::Constructor { module, name, arguments } => {
            let head = match module {
                Some(qualifier) => Doc::text(qualifier@).append(Doc::text("."@)).append(
                    Doc::text(name@),
                ),
                None => Doc::text(name@),
            };
            if arguments@.len() == 0 {
                head
            } else {
                head.append(wrap_args_doc(type_docs(arguments@, arguments@.len() as int)))
            }
        },
        TypeAst::Fn { arguments, return_ } => Doc::text("fn"@).append(
            wrap_args_doc(type_docs(arguments@, arguments@.len() as int)),
        ).group().append(Doc::text(" ->"@)).append(
            Doc::break_(""@, " "@).append(type_doc(return_)).nest(INDENT as nat),
        ),
        TypeAst::Var { name } => Doc::text(name@),
        TypeAst::Tuple { elems } => Doc::text("#"@).append(
            wrap_args_doc(type_docs(elems@, elems@.len() as int)),
        ),
    }).group()
}

/// The document of a list of type arguments.
pub open spec fn type_arguments_doc(types: Seq<TypeAst>) -> Doc {
    wrap_args_doc(type_docs(types, types.len() as int))
}

/// Lowers a type annotation.
pub fn type_ast<'a>(t: &'a TypeAst) -> (r: Document<'a>)
    ensures
        r@ == type_doc(t),
    decreases t,
{
    match t {
        TypeAst::Hole { name } => text(name.as_str()),
        TypeAst::Constructor { module, name, arguments } => {
            let head = match module {
                Some(qualifier) => text(qualifier.as_str()).append(text(".")).append(
                    text(name.as_str()),
                ),
                None => text(name.as_str()),
            };
            if arguments.len() == 0 {
                head
            } else {
                head.append(type_arguments(arguments))
            }
        },
        TypeAst::Fn { arguments, return_ } => text("fn").append(
            type_arguments(arguments),
        ).group().append(text(" ->")).append(
            break_("", " ").append(type_ast(return_)).nest(INDENT),
        ),
        TypeAst::Var { name } => text(name.as_str()),
        TypeAst::Tuple { elems } => text("#").append(type_arguments(elems)),
    }.group()
}

/// Lowers a list of type arguments.
pub fn type_arguments<'a>(args: &'a Vec<TypeAst>) -> (r: Document<'a>)
    ensures
        r@ == type_arguments_doc(args@),
    decreases args,
{
    let mut docs: Vec<Document<'a>> = Vec::new();
    let mut i: usize = 0;
    assert(docs_of(docs@) =~= type_docs(args@, 0));
    while i < args.len()
        invariant
            i <= args@.len(),
            docs_of(docs@) == type_docs(args@, i as int),
        decreases args@.len() - i,
    {
        push_doc(&mut docs, type_ast(&args[i]));
        i += 1;
    }
    wrap_args(docs)
}

} // verus!
