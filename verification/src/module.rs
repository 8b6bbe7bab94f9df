//! Formatting a parsed module: lowering it with its trivia, then rendering
//! the document at the fixed width.

use vstd::prelude::*;
use crate::ast::UntypedModule;
use crate::definition::{module_low, module_ok};
use crate::pretty::{render, render_text};
use crate::trivia::{Formatter, Intermediate, Trivia};

verus! {

/// The width that source is formatted for.
pub const WIDTH: usize = 80;

/// The formatted text of a module with the given trivia.
pub open spec fn module_text(module: &UntypedModule, trivia: Trivia) -> Seq<char> {
    render_text(module_low(module, trivia).doc, WIDTH as int)
}

/// Formats a module. No state survives the call.
pub fn format_module(module: &UntypedModule, extra: &Intermediate<'_>) -> (r: String)
    requires
        module_ok(module),
    ensures
        r@ == module_text(module, extra@),
{
    let mut formatter = Formatter::with_comments(extra);
    let document = formatter.module(module);
    render(&document, WIDTH)
}

} // verus!
