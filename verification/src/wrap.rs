//! Layout helpers shared by the lowering: argument lists, blocks, bit arrays.
//! A list that fits stays on one line; one that does not breaks after every
//! element and takes a trailing comma.

use vstd::prelude::*;
use crate::pretty::{break_, docs_of, flex_break, join, line, nil, text, Doc, Document, INDENT};

verus! {

/// `pub ` for a public item, nothing for a private one.
pub open spec fn pub_doc(public: bool) -> Doc {
    if public {
        Doc::text("pub "@)
    } else {
        Doc::Nil
    }
}

/// `doc` in braces on lines of its own, always broken.
pub open spec fn break_block_doc(doc: Doc) -> Doc {
    Doc::text("{"@).append(Doc::line().append(doc).nest(INDENT as nat)).append(Doc::line()).append(
        Doc::text("}"@),
    ).force_break()
}

/// `doc` in braces, on one line where the enclosing group fits.
pub open spec fn wrap_block_doc(doc: Doc) -> Doc {
    Doc::break_("{"@, "{ "@).append(doc).nest(INDENT as nat).append(Doc::break_(""@, " "@)).append(
        Doc::text("}"@),
    )
}

/// `args` in parentheses, separated by commas.
pub open spec fn wrap_args_doc(args: Seq<Doc>) -> Doc {
    if args.len() == 0 {
        Doc::text("()"@)
    } else {
        Doc::break_("("@, "("@).append(Doc::join(args, Doc::break_(","@, ", "@))).nest(
            INDENT as nat,
        ).append(Doc::break_(","@, ""@)).append(Doc::text(")"@))
    }
}

/// `args` in parentheses, followed by `..`.
pub open spec fn wrap_args_with_spread_doc(args: Seq<Doc>) -> Doc {
    if args.len() == 0 {
        Doc::text("()"@)
    } else {
        Doc::break_("("@, "("@).append(Doc::join(args, Doc::break_(","@, ", "@))).append(
            Doc::break_(","@, ", "@),
        ).append(Doc::text(".."@)).nest(INDENT as nat).append(Doc::break_(","@, ""@)).append(
            Doc::text(")"@),
        ).group()
    }
}

/// The separator of a list: one that packs the line where every element is
/// simple, one that breaks after every element otherwise.
pub open spec fn comma_doc(simple: bool) -> Doc {
    if simple {
        Doc::flex_break(","@, ", "@)
    } else {
        Doc::break_(","@, ", "@)
    }
}

/// `segments` between `<<` and `>>`.
pub open spec fn bit_array_doc(segments: Seq<Doc>, simple: bool) -> Doc {
    Doc::break_("<<"@, "<<"@).append(Doc::join(segments, comma_doc(simple))).nest(
        INDENT as nat,
    ).append(Doc::break_(","@, ""@)).append(Doc::text(">>"@)).group()
}

/// `pub ` where `public`, nothing where not.
pub fn pub_<'a>(public: bool) -> (r: Document<'a>)
    ensures
        r@ == pub_doc(public),
{
    if public {
        text("pub ")
    } else {
        nil()
    }
}

/// `doc` in braces, always on lines of its own.
pub fn break_block<'a>(doc: Document<'a>) -> (r: Document<'a>)
    ensures
        r@ == break_block_doc(doc@),
{
    text("{").append(line().append(doc).nest(INDENT)).append(line()).append(text("}")).force_break()
}

/// `doc` in braces, on one line where the group around it fits.
pub fn wrap_block<'a>(doc: Document<'a>) -> (r: Document<'a>)
    ensures
        r@ == wrap_block_doc(doc@),
{
    break_("{", "{ ").append(doc).nest(INDENT).append(break_("", " ")).append(text("}"))
}

/// `args` in parentheses, separated by commas.
pub fn wrap_args<'a>(args: Vec<Document<'a>>) -> (r: Document<'a>)
    ensures
        r@ == wrap_args_doc(docs_of(args@)),
{
    if args.len() == 0 {
        return text("()");
    }
    break_("(", "(").append(join(args, break_(",", ", "))).nest(INDENT).append(
        break_(",", ""),
    ).append(text(")"))
}

/// `args` in parentheses, separated by commas, with `..` behind the last.
pub fn wrap_args_with_spread<'a>(args: Vec<Document<'a>>) -> (r: Document<'a>)
    ensures
        r@ == wrap_args_with_spread_doc(docs_of(args@)),
{
    if args.len() == 0 {
        return text("()");
    }
    break_("(", "(").append(join(args, break_(",", ", "))).append(break_(",", ", ")).append(
        text(".."),
    ).nest(INDENT).append(break_(",", "")).append(text(")")).group()
}

/// The break behind a comma.
pub fn comma<'a>(simple: bool) -> (r: Document<'a>)
    ensures
        r@ == comma_doc(simple),
{
    if simple {
        flex_break(",", ", ")
    } else {
        break_(",", ", ")
    }
}

/// `segments` between `<<` and `>>`.
pub fn bit_array<'a>(segments: Vec<Document<'a>>, is_simple: bool) -> (r: Document<'a>)
    ensures
        r@ == bit_array_doc(docs_of(segments@), is_simple),
{
    break_("<<", "<<").append(join(segments, comma(is_simple))).nest(INDENT).append(
        break_(",", ""),
    ).append(text(">>")).group()
}

} // verus!
