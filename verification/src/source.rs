//! Cutting the trivia out of the source text by the spans the parser recorded.

use vstd::prelude::*;
use vstd::string::*;
use vstd::utf8::{
    decode_utf8,
    encode_utf8,
    encode_utf8_decode_utf8,
    encode_utf8_valid_utf8,
    is_char_boundary,
    is_char_boundary_iff_not_is_continuation_byte,
    is_char_boundary_start_end_of_seq,
    valid_utf8_split,
};
use crate::ast::{ModuleExtra, SrcSpan};
use crate::trivia::{notes_of, Comment, Intermediate, Note, Trivia};

verus! {

/// Whether the span lies within the text and starts and ends where a
/// character does, the text taken as UTF-8.
pub open spec fn span_ok(src: Seq<char>, span: SrcSpan) -> bool {
    let bytes = encode_utf8(src);
    &&& span.start <= span.end <= bytes.len()
    &&& is_char_boundary(bytes, span.start as int)
    &&& is_char_boundary(bytes, span.end as int)
}

/// The text that the span covers.
pub open spec fn span_text(src: Seq<char>, span: SrcSpan) -> Seq<char> {
    decode_utf8(encode_utf8(src).subrange(span.start as int, span.end as int))
}

/// Whether every span lies within the text.
pub open spec fn spans_ok(src: Seq<char>, spans: Seq<SrcSpan>) -> bool {
    forall|i: int| 0 <= i < spans.len() ==> span_ok(src, #[trigger] spans[i])
}

/// The comments that the spans cover, each at the offset where its span
/// starts.
pub open spec fn notes_at(src: Seq<char>, spans: Seq<SrcSpan>) -> Seq<Note> {
    Seq::new(spans.len(), |i: int| Note { start: spans[i].start, text: span_text(src, spans[i]) })
}

/// Whether the spans of `extra` all lie within the text.
pub open spec fn extra_ok(src: Seq<char>, extra: &ModuleExtra) -> bool {
    &&& spans_ok(src, extra.comments@)
    &&& spans_ok(src, extra.doc_comments@)
    &&& spans_ok(src, extra.module_comments@)
}

/// The trivia that `extra` points at.
pub open spec fn extra_trivia(src: Seq<char>, extra: &ModuleExtra) -> Trivia {
    Trivia {
        comments: notes_at(src, extra.comments@),
        doc_comments: notes_at(src, extra.doc_comments@),
        module_comments: notes_at(src, extra.module_comments@),
        empty_lines: extra.empty_lines@,
    }
}

/// Whether the span lies within the text.
pub fn span_fits(src: &str, span: &SrcSpan) -> (r: bool)
    ensures
        r == span_ok(src@, *span),
{
    proof {
        encode_utf8_valid_utf8(src@);
    }
    span.start <= span.end && span.end as usize <= src.as_bytes().len() && src.is_char_boundary(
        span.start as usize,
    ) && src.is_char_boundary(span.end as usize)
}

/// Whether every span lies within the text.
pub fn spans_fit(src: &str, spans: &Vec<SrcSpan>) -> (r: bool)
    ensures
        r == spans_ok(src@, spans@),
{
    let mut i: usize = 0;
    while i < spans.len()
        invariant
            i <= spans@.len(),
            forall|k: int| 0 <= k < i ==> span_ok(src@, #[trigger] spans@[k]),
        decreases spans@.len() - i,
    {
        if !span_fits(src, &spans[i]) {
            return false;
        }
        i += 1;
    }
    true
}

/// The text of `src` that the span covers.
pub fn slice<'a>(src: &'a str, span: &SrcSpan) -> (r: &'a str)
    requires
        span_ok(src@, *span),
    ensures
        r@ == span_text(src@, *span),
{
    let ghost bytes = encode_utf8(src@);
    let start = span.start as usize;
    let end = span.end as usize;
    proof {
        encode_utf8_valid_utf8(src@);
    }
    let (head, _) = src.split_at(end);
    proof {
        let prefix = bytes.subrange(0, end as int);
        assert(head.spec_bytes() == prefix);
        valid_utf8_split(bytes, end as int);
        if start == end {
            is_char_boundary_start_end_of_seq(prefix);
        } else {
            is_char_boundary_iff_not_is_continuation_byte(bytes, start as int);
            assert(prefix[start as int] == bytes[start as int]);
            is_char_boundary_iff_not_is_continuation_byte(prefix, start as int);
        }
    }
    let (_, tail) = head.split_at(start);
    proof {
        assert(tail.spec_bytes() =~= bytes.subrange(start as int, end as int));
        encode_utf8_decode_utf8(tail@);
    }
    tail
}

/// The comments that the spans cover.
pub fn comments_at<'a>(src: &'a str, spans: &Vec<SrcSpan>) -> (r: Vec<Comment<'a>>)
    requires
        spans_ok(src@, spans@),
    ensures
        notes_of(r@) == notes_at(src@, spans@),
{
    let mut out: Vec<Comment<'a>> = Vec::new();
    let mut i: usize = 0;
    while i < spans.len()
        invariant
            i <= spans@.len(),
            spans_ok(src@, spans@),
            out@.len() == i,
            forall|k: int|
                0 <= k < i ==> (#[trigger] out@[k])@ == (Note {
                    start: spans@[k].start,
                    text: span_text(src@, spans@[k]),
                }),
        decreases spans@.len() - i,
    {
        out.push(Comment { start: spans[i].start, content: slice(src, &spans[i]) });
        i += 1;
    }
    assert(notes_of(out@) =~= notes_at(src@, spans@));
    out
}

impl ModuleExtra {
    /// Whether the spans all lie within the text.
    pub fn fits(&self, src: &str) -> (r: bool)
        ensures
            r == extra_ok(src@, self),
    {
        spans_fit(src, &self.comments) && spans_fit(src, &self.doc_comments) && spans_fit(
            src,
            &self.module_comments,
        )
    }
}

impl<'a> Intermediate<'a> {
    /// Cuts the comments out of the source text. Every span has to lie
    /// within the text.
    pub fn from_extra(extra: &'a ModuleExtra, src: &'a str) -> (r: Intermediate<'a>)
        requires
            extra_ok(src@, extra),
        ensures
            r@ == extra_trivia(src@, extra),
    {
        Intermediate {
            comments: comments_at(src, &extra.comments),
            doc_comments: comments_at(src, &extra.doc_comments),
            empty_lines: extra.empty_lines.as_slice(),
            module_comments: comments_at(src, &extra.module_comments),
        }
    }
}

} // verus!
