//! The options of a bit array segment.

use vstd::prelude::*;
use crate::ast::BitArrayOption;
use crate::literal::{decimal, number};
use crate::pretty::{text, Doc, Document};

verus! {

/// The document of one option. `inner` is the document of the value of a
/// `Size` option; the other options do not look at it.
pub open spec fn option_doc<T>(option: &BitArrayOption<T>, inner: Doc) -> Doc {
    match option {
        BitArrayOption::Binary | BitArrayOption::Bytes => Doc::text("bytes"@),
        BitArrayOption::BitString | BitArrayOption::Bits => Doc::text("bits"@),
        BitArrayOption::Int => Doc::text("int"@),
        BitArrayOption::Float => Doc::text("float"@),
        BitArrayOption::Utf8 => Doc::text("utf8"@),
        BitArrayOption::Utf16 => Doc::text("utf16"@),
        BitArrayOption::Utf32 => Doc::text("utf32"@),
        BitArrayOption::Utf8Codepoint => Doc::text("utf8_codepoint"@),
        BitArrayOption::Utf16Codepoint => Doc::text("utf16_codepoint"@),
        BitArrayOption::Utf32Codepoint => Doc::text("utf32_codepoint"@),
        BitArrayOption::Signed => Doc::text("signed"@),
        BitArrayOption::Unsigned => Doc::text("unsigned"@),
        BitArrayOption::Big => Doc::text("big"@),
        BitArrayOption::Little => Doc::text("little"@),
        BitArrayOption::Native => Doc::text("native"@),
        BitArrayOption::Size { short_form, .. } => if *short_form {
            inner
        } else {
            Doc::text("size"@).append(Doc::text("("@)).append(inner).append(Doc::text(")"@))
        },
        BitArrayOption::Unit { value } => Doc::text("unit"@).append(Doc::text("("@)).append(
            Doc::text(decimal(*value as nat)),
        ).append(Doc::text(")"@)),
    }
}

/// Lowers one option of a segment; `inner` is the lowered value of a `Size`
/// option.
pub fn segment_option<'a, T>(option: &BitArrayOption<T>, inner: Document<'a>) -> (r: Document<'a>)
    ensures
        r@ == option_doc(option, inner@),
{
    match option {
        BitArrayOption::Binary | BitArrayOption::Bytes => text("bytes"),
        BitArrayOption::BitString | BitArrayOption::Bits => text("bits"),
        BitArrayOption::Int => text("int"),
        BitArrayOption::Float => text("float"),
        BitArrayOption::Utf8 => text("utf8"),
        BitArrayOption::Utf16 => text("utf16"),
        BitArrayOption::Utf32 => text("utf32"),
        BitArrayOption::Utf8Codepoint => text("utf8_codepoint"),
        BitArrayOption::Utf16Codepoint => text("utf16_codepoint"),
        BitArrayOption::Utf32Codepoint => text("utf32_codepoint"),
        BitArrayOption::Signed => text("signed"),
        BitArrayOption::Unsigned => text("unsigned"),
        BitArrayOption::Big => text("big"),
        BitArrayOption::Little => text("little"),
        BitArrayOption::Native => text("native"),
        BitArrayOption::Size { short_form, .. } => if *short_form {
            inner
        } else {
            text("size").append(text("(")).append(inner).append(text(")"))
        },
        BitArrayOption::Unit { value } => text("unit").append(text("(")).append(
            number(*value as u64),
        ).append(text(")")),
    }
}

} // verus!
