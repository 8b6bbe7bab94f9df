//! Comments are printed in the order of the source.
//!
//! A comment is printed as its prefix followed by an owned text buffer. The
//! lemmas of this module follow the cursor through the lowering: what a
//! construct prints after a prefix are the texts at the front of the cursor,
//! in their order, and what it leaves is the rest.

pub mod definitions;
pub mod exprs;
pub mod patterns;

use vstd::multiset::Multiset;
use vstd::prelude::*;
use crate::comments::plain::plain;
use crate::comments::buffers;
use crate::guard::{binary_doc, operator_side_doc};
use crate::pretty::{interspersed, Doc};
use crate::trivia::{
    ascending,
    blank_marks,
    coalesced,
    comment_doc,
    comment_marks,
    commented_doc,
    merged,
    payloads,
    popped,
    pops_keep_the_order,
    printed,
    printed_from,
    reach,
    reach_is_bounded,
    reach_splits_at_the_limit,
    single_runs,
    starts_of,
    without_leading_blanks,
    Lowered,
    LoweredAll,
    Mark,
    Note,
    Trivia,
};
use crate::wrap::{
    bit_array_doc,
    break_block_doc,
    comma_doc,
    pub_doc,
    wrap_args_doc,
    wrap_args_with_spread_doc,
    wrap_block_doc,
};

verus! {

/// The texts that a document prints as owned buffers right after `prefix`,
/// from left to right.
pub open spec fn said(doc: Doc, prefix: Seq<char>) -> Seq<Seq<char>>
    decreases doc,
{
    match doc {
        Doc::Cons(a, b) => match *b {
            Doc::String(text) if *a == Doc::Text(prefix) => seq![text],
            _ => said(*a, prefix) + said(*b, prefix),
        },
        Doc::Nest(_, d) => said(*d, prefix),
        Doc::Group(d) => said(*d, prefix),
        Doc::ForceBreak(d) => said(*d, prefix),
        _ => Seq::empty(),
    }
}

/// What the documents of a list say after `prefix`.
pub open spec fn said_all(docs: Seq<Doc>, prefix: Seq<char>) -> Seq<Seq<char>>
    decreases docs.len(),
{
    if docs.len() == 0 {
        Seq::empty()
    } else {
        said_all(docs.drop_last(), prefix) + said(docs.last(), prefix)
    }
}

/// The texts of comments in their order.
pub open spec fn texts_in_order(notes: Seq<Note>) -> Seq<Seq<char>> {
    Seq::new(notes.len(), |i: int| notes[i].text)
}

/// The comments among what was popped, in their order.
pub open spec fn popped_in_order(items: Seq<Option<Seq<char>>>) -> Seq<Seq<char>>
    decreases items.len(),
{
    if items.len() == 0 {
        Seq::empty()
    } else {
        match items[0] {
            Some(text) => seq![text] + popped_in_order(items.drop_first()),
            None => popped_in_order(items.drop_first()),
        }
    }
}

/// Whether `rest` is what is left of `all` once some of its front is gone.
pub open spec fn is_rest(rest: Seq<Note>, all: Seq<Note>) -> bool {
    rest.len() <= all.len() && rest =~= all.skip(all.len() - rest.len())
}

/// Whether every comment starts past `limit`.
pub open spec fn past(notes: Seq<Note>, limit: u32) -> bool {
    forall|i: int| 0 <= i < notes.len() ==> (#[trigger] notes[i]).start > limit
}

/// Whether a document says nothing after any of the three prefixes of
/// comments, and is no bare buffer.
pub open spec fn quiet(doc: Doc) -> bool {
    &&& said(doc, "//"@) =~= Seq::empty()
    &&& said(doc, "///"@) =~= Seq::empty()
    &&& said(doc, "////"@) =~= Seq::empty()
    &&& !(doc is String)
}

/// What was printed after the prefix of comments and of doc comments are the
/// texts at the front of the cursor, in their order, and what is left is the
/// rest; the module comments were not touched; the cursor stays in order;
/// and the document is no bare buffer.
pub open spec fn follows(before: Trivia, after: Lowered) -> bool {
    &&& is_rest(after.trivia.comments, before.comments)
    &&& is_rest(after.trivia.doc_comments, before.doc_comments)
    &&& texts_in_order(before.comments) =~= said(after.doc, "//"@) + texts_in_order(
        after.trivia.comments,
    )
    &&& texts_in_order(before.doc_comments) =~= said(after.doc, "///"@) + texts_in_order(
        after.trivia.doc_comments,
    )
    &&& said(after.doc, "////"@) =~= Seq::empty()
    &&& after.trivia.module_comments == before.module_comments
    &&& after.trivia.ordered()
    &&& !(after.doc is String)
}

/// Whether no document of a list is a bare buffer.
pub open spec fn no_bare_buffer(docs: Seq<Doc>) -> bool {
    forall|i: int| 0 <= i < docs.len() ==> !(#[trigger] docs[i] is String)
}

/// `follows` for a list of documents.
pub open spec fn follows_all(before: Trivia, after: LoweredAll) -> bool {
    &&& is_rest(after.trivia.comments, before.comments)
    &&& is_rest(after.trivia.doc_comments, before.doc_comments)
    &&& texts_in_order(before.comments) =~= said_all(after.docs, "//"@) + texts_in_order(
        after.trivia.comments,
    )
    &&& texts_in_order(before.doc_comments) =~= said_all(after.docs, "///"@) + texts_in_order(
        after.trivia.doc_comments,
    )
    &&& said_all(after.docs, "////"@) =~= Seq::empty()
    &&& after.trivia.module_comments == before.module_comments
    &&& after.trivia.ordered()
    &&& no_bare_buffer(after.docs)
}

/// The three prefixes of comments differ.
pub proof fn prefixes_differ()
    ensures
        "//"@.len() == 2,
        "///"@.len() == 3,
        "////"@.len() == 4,
{
    reveal_strlit("//");
    reveal_strlit("///");
    reveal_strlit("////");
}

/// What holds no buffer says nothing.
pub proof fn plain_is_quiet(doc: Doc)
    requires
        plain(doc),
    ensures
        quiet(doc),
        forall|prefix: Seq<char>| #[trigger] said(doc, prefix) =~= Seq::empty(),
{
    assert forall|prefix: Seq<char>| #[trigger] said(doc, prefix) =~= Seq::empty() by {
        plain_says_nothing(doc, prefix);
    }
}

proof fn plain_says_nothing(doc: Doc, prefix: Seq<char>)
    requires
        plain(doc),
    ensures
        said(doc, prefix) =~= Seq::empty(),
        !(doc is String),
    decreases doc,
{
    match doc {
        Doc::Cons(a, b) => {
            assert(buffers(*a).len() + buffers(*b).len() == buffers(doc).len());
            assert(buffers(*a) =~= Multiset::empty()) by {
                assert(buffers(*a).len() == 0);
            }
            assert(buffers(*b) =~= Multiset::empty()) by {
                assert(buffers(*b).len() == 0);
            }
            plain_says_nothing(*a, prefix);
            plain_says_nothing(*b, prefix);
        },
        Doc::Nest(_, d) => {
            plain_says_nothing(*d, prefix);
        },
        Doc::Group(d) => {
            plain_says_nothing(*d, prefix);
        },
        Doc::ForceBreak(d) => {
            plain_says_nothing(*d, prefix);
        },
        Doc::String(s) => {
            assert(buffers(doc).count(s) == 1);
        },
        _ => {},
    }
}

/// One more document says its comments behind those of the list.
pub proof fn said_of_pushed(docs: Seq<Doc>, doc: Doc, prefix: Seq<char>)
    ensures
        said_all(docs.push(doc), prefix) =~= said_all(docs, prefix) + said(doc, prefix),
        no_bare_buffer(docs) && !(doc is String) ==> no_bare_buffer(docs.push(doc)),
{
    assert(docs.push(doc).drop_last() =~= docs);
}

/// Two lists put together say the comments of the first, then those of the
/// second.
pub proof fn said_of_both(a: Seq<Doc>, b: Seq<Doc>, prefix: Seq<char>)
    ensures
        said_all(a + b, prefix) =~= said_all(a, prefix) + said_all(b, prefix),
    decreases b.len(),
{
    if b.len() == 0 {
        assert(a + b =~= a);
    } else {
        said_of_both(a, b.drop_last(), prefix);
        assert((a + b).drop_last() =~= a + b.drop_last());
    }
}

/// A list says the comments of its first document, then those of the rest.
pub proof fn said_from_the_front(docs: Seq<Doc>, prefix: Seq<char>)
    requires
        docs.len() > 0,
    ensures
        said_all(docs, prefix) =~= said(docs[0], prefix) + said_all(docs.drop_first(), prefix),
    decreases docs.len(),
{
    if docs.len() == 1 {
        assert(docs.drop_last() =~= Seq::<Doc>::empty());
        assert(docs.drop_first() =~= Seq::<Doc>::empty());
    } else {
        said_from_the_front(docs.drop_last(), prefix);
        assert(docs.drop_last().drop_first() =~= docs.drop_first().drop_last());
    }
}

/// A concatenation says what its parts say, one after the other.
pub proof fn said_of_concat(docs: Seq<Doc>, prefix: Seq<char>)
    requires
        no_bare_buffer(docs),
    ensures
        said(Doc::concat(docs), prefix) =~= said_all(docs, prefix),
        !(Doc::concat(docs) is String),
    decreases docs.len(),
{
    if docs.len() == 1 {
        assert(docs.drop_last() =~= Seq::<Doc>::empty());
        assert(said_all(Seq::<Doc>::empty(), prefix) =~= Seq::empty());
        assert(!(docs[0] is String));
    } else if docs.len() > 1 {
        let half = docs.len() as int / 2;
        assert(no_bare_buffer(docs.take(half))) by {
            assert forall|i: int| 0 <= i < docs.take(half).len() implies !(
            #[trigger] docs.take(half)[i] is String) by {
                assert(docs.take(half)[i] == docs[i]);
            }
        }
        assert(no_bare_buffer(docs.skip(half))) by {
            assert forall|i: int| 0 <= i < docs.skip(half).len() implies !(
            #[trigger] docs.skip(half)[i] is String) by {
                assert(docs.skip(half)[i] == docs[i + half]);
            }
        }
        said_of_concat(docs.take(half), prefix);
        said_of_concat(docs.skip(half), prefix);
        said_of_both(docs.take(half), docs.skip(half), prefix);
        assert(docs.take(half) + docs.skip(half) =~= docs);
    }
}

proof fn said_of_interspersed(docs: Seq<Doc>, separator: Doc, prefix: Seq<char>)
    requires
        said(separator, prefix) =~= Seq::empty(),
        !(separator is String),
        no_bare_buffer(docs),
    ensures
        said_all(interspersed(docs, separator), prefix) =~= said_all(docs, prefix),
        no_bare_buffer(interspersed(docs, separator)),
    decreases docs.len(),
{
    if docs.len() > 1 {
        assert(no_bare_buffer(docs.drop_last())) by {
            assert forall|i: int| 0 <= i < docs.drop_last().len() implies !(
            #[trigger] docs.drop_last()[i] is String) by {
                assert(docs.drop_last()[i] == docs[i]);
            }
        }
        said_of_interspersed(docs.drop_last(), separator, prefix);
        let before = interspersed(docs.drop_last(), separator);
        said_of_pushed(before, separator, prefix);
        said_of_pushed(before.push(separator), docs.last(), prefix);
        assert(!(docs[docs.len() - 1] is String));
    }
}

/// Interspersing a quiet separator adds no bare buffer.
pub proof fn interspersed_has_no_bare_buffer(docs: Seq<Doc>, separator: Doc)
    requires
        quiet_for_all(separator),
        no_bare_buffer(docs),
    ensures
        no_bare_buffer(interspersed(docs, separator)),
{
    said_of_interspersed(docs, separator, "//"@);
}

/// A join with a quiet separator says what its parts say.
pub proof fn said_of_join(docs: Seq<Doc>, separator: Doc, prefix: Seq<char>)
    requires
        said(separator, prefix) =~= Seq::empty(),
        !(separator is String),
        no_bare_buffer(docs),
    ensures
        said(Doc::join(docs, separator), prefix) =~= said_all(docs, prefix),
        said(Doc::concat(interspersed(docs, separator)), prefix) =~= said_all(docs, prefix),
        !(Doc::join(docs, separator) is String),
{
    said_of_interspersed(docs, separator, prefix);
    said_of_concat(interspersed(docs, separator), prefix);
}

/// Brackets, braces and separators say nothing of their own.
pub proof fn said_of_wrapped(docs: Seq<Doc>, doc: Doc, simple: bool, prefix: Seq<char>)
    requires
        no_bare_buffer(docs),
        !(doc is String),
    ensures
        said(wrap_args_doc(docs), prefix) =~= said_all(docs, prefix),
        said(wrap_args_with_spread_doc(docs), prefix) =~= said_all(docs, prefix),
        said(bit_array_doc(docs, simple), prefix) =~= said_all(docs, prefix),
        said(wrap_block_doc(doc), prefix) =~= said(doc, prefix),
        said(break_block_doc(doc), prefix) =~= said(doc, prefix),
        said(comma_doc(simple), prefix) =~= Seq::empty(),
        said(pub_doc(simple), prefix) =~= Seq::empty(),
        !(wrap_args_doc(docs) is String),
        !(wrap_args_with_spread_doc(docs) is String),
        !(bit_array_doc(docs, simple) is String),
        !(wrap_block_doc(doc) is String),
        !(break_block_doc(doc) is String),
        !(comma_doc(simple) is String),
        !(pub_doc(simple) is String),
{
    reveal_with_fuel(said, 8);
    said_of_join(docs, Doc::break_(","@, ", "@), prefix);
    said_of_join(docs, comma_doc(simple), prefix);
    if docs.len() == 0 {
        assert(said_all(docs, prefix) =~= Seq::empty());
    }
}

/// An operand in braces says what the operand says.
pub proof fn said_of_operands(
    name: Seq<char>,
    precedence: u8,
    left: Doc,
    left_precedence: u8,
    right: Doc,
    right_precedence: u8,
    prefix: Seq<char>,
)
    requires
        !(left is String),
        !(right is String),
    ensures
        said(operator_side_doc(left, precedence, left_precedence), prefix) =~= said(left, prefix),
        !(operator_side_doc(left, precedence, left_precedence) is String),
        said(
            binary_doc(name, precedence, left, left_precedence, right, right_precedence),
            prefix,
        ) =~= said(left, prefix) + said(right, prefix),
        !(binary_doc(name, precedence, left, left_precedence, right, right_precedence) is String),
{
    reveal_with_fuel(said, 8);
}

proof fn texts_of_the_comment_marks(notes: Seq<Note>)
    ensures
        popped_in_order(payloads(comment_marks(notes))) =~= texts_in_order(notes),
    decreases notes.len(),
{
    if notes.len() > 0 {
        texts_of_the_comment_marks(notes.drop_first());
        assert(payloads(comment_marks(notes)).drop_first() =~= payloads(
            comment_marks(notes.drop_first()),
        ));
        assert(texts_in_order(notes.drop_first()) =~= texts_in_order(notes).drop_first());
    }
}

/// Merging blank lines into comments keeps the comments in their order.
proof fn comments_of_merged(left: Seq<Mark>, right: Seq<Mark>)
    requires
        forall|i: int| 0 <= i < right.len() ==> (#[trigger] right[i]).1 is None,
    ensures
        popped_in_order(payloads(merged(left, right))) =~= popped_in_order(payloads(left)),
    decreases left.len() + right.len(),
{
    if left.len() == 0 {
        nothing_among_blanks(right);
    } else if right.len() == 0 {
    } else if left[0].0 < right[0].0 {
        comments_of_merged(left.drop_first(), right);
        let all = seq![left[0]] + merged(left.drop_first(), right);
        assert(payloads(all).drop_first() =~= payloads(merged(left.drop_first(), right)));
        assert(payloads(left).drop_first() =~= payloads(left.drop_first()));
    } else {
        assert forall|i: int| 0 <= i < right.drop_first().len() implies (
        #[trigger] right.drop_first()[i]).1 is None by {
            assert(right.drop_first()[i] == right[i + 1]);
        }
        comments_of_merged(left, right.drop_first());
        let all = seq![right[0]] + merged(left, right.drop_first());
        assert(payloads(all).drop_first() =~= payloads(merged(left, right.drop_first())));
    }
}

proof fn nothing_among_blanks(marks: Seq<Mark>)
    requires
        forall|i: int| 0 <= i < marks.len() ==> (#[trigger] marks[i]).1 is None,
    ensures
        popped_in_order(payloads(marks)) =~= Seq::empty(),
        without_leading_blanks(marks) =~= Seq::empty(),
    decreases marks.len(),
{
    if marks.len() > 0 {
        assert forall|i: int| 0 <= i < marks.drop_first().len() implies (
        #[trigger] marks.drop_first()[i]).1 is None by {
            assert(marks.drop_first()[i] == marks[i + 1]);
        }
        nothing_among_blanks(marks.drop_first());
        assert(payloads(marks).drop_first() =~= payloads(marks.drop_first()));
        assert(marks[0].1 is None);
    }
}

proof fn comments_without_leading_blanks(marks: Seq<Mark>)
    ensures
        popped_in_order(payloads(without_leading_blanks(marks))) =~= popped_in_order(
            payloads(marks),
        ),
    decreases marks.len(),
{
    if marks.len() > 0 && marks[0].1 is None {
        comments_without_leading_blanks(marks.drop_first());
        assert(payloads(marks).drop_first() =~= payloads(marks.drop_first()));
    }
}

/// Popping hands out the comments before the split in their order; and
/// nothing at all where no comment lies before the split.
pub proof fn popping_keeps_the_order(notes: Seq<Note>, lines: Seq<u32>, limit: u32, retain: bool)
    ensures
        reach(starts_of(notes), limit) <= notes.len(),
        popped_in_order(popped(notes, lines, limit, retain)) =~= texts_in_order(
            notes.take(reach(starts_of(notes), limit) as int),
        ),
        reach(starts_of(notes), limit) == 0 ==> popped(notes, lines, limit, retain).len() == 0,
{
    reach_is_bounded(starts_of(notes), limit);
    let taken = notes.take(reach(starts_of(notes), limit) as int);
    let blanks = if retain {
        coalesced(single_runs(lines.take(reach(lines, limit) as int)))
    } else {
        Seq::empty()
    };
    let all = merged(comment_marks(taken), blank_marks(blanks));
    texts_of_the_comment_marks(taken);
    comments_of_merged(comment_marks(taken), blank_marks(blanks));
    comments_without_leading_blanks(all);
    if reach(starts_of(notes), limit) == 0 {
        assert(comment_marks(taken) =~= Seq::<Mark>::empty());
        nothing_among_blanks(blank_marks(blanks));
    }
}

proof fn said_of_printed_from(items: Seq<Option<Seq<char>>>, i: int, trailing_newline: bool)
    requires
        0 <= i <= items.len(),
    ensures
        said_all(printed_from(items, i, trailing_newline), "//"@) =~= popped_in_order(
            items.skip(i),
        ),
        said_all(printed_from(items, i, trailing_newline), "///"@) =~= Seq::empty(),
        said_all(printed_from(items, i, trailing_newline), "////"@) =~= Seq::empty(),
        no_bare_buffer(printed_from(items, i, trailing_newline)),
    decreases items.len() - i,
{
    reveal_with_fuel(said, 3);
    prefixes_differ();
    if i < items.len() {
        let here = items.skip(i);
        assert(here.drop_first() =~= items.skip(i + 1));
        assert(here[0] == items[i]);
        match items[i] {
            None => {
                said_of_printed_from(items, i + 1, trailing_newline);
                assert(popped_in_order(here) =~= popped_in_order(items.skip(i + 1)));
            },
            Some(text) => {
                assert(popped_in_order(here) =~= seq![text] + popped_in_order(items.skip(i + 1)));
                let head = seq![comment_doc(text)];
                assert(head =~= Seq::<Doc>::empty().push(comment_doc(text)));
                said_of_pushed(Seq::<Doc>::empty(), comment_doc(text), "//"@);
                said_of_pushed(Seq::<Doc>::empty(), comment_doc(text), "///"@);
                said_of_pushed(Seq::<Doc>::empty(), comment_doc(text), "////"@);
                assert(said(comment_doc(text), "//"@) =~= seq![text]);
                assert(said(comment_doc(text), "///"@) =~= Seq::empty());
                assert(said(comment_doc(text), "////"@) =~= Seq::empty());
                said_of_pushed(head, Doc::line(), "//"@);
                said_of_pushed(head, Doc::line(), "///"@);
                said_of_pushed(head, Doc::line(), "////"@);
                said_of_pushed(head, Doc::lines(2), "//"@);
                said_of_pushed(head, Doc::lines(2), "///"@);
                said_of_pushed(head, Doc::lines(2), "////"@);
                if i + 1 >= items.len() {
                    assert(items.skip(i + 1) =~= Seq::<Option<Seq<char>>>::empty());
                } else if items[i + 1] is Some {
                    said_of_printed_from(items, i + 1, trailing_newline);
                    let rest = printed_from(items, i + 1, trailing_newline);
                    said_of_both(head.push(Doc::line()), rest, "//"@);
                    said_of_both(head.push(Doc::line()), rest, "///"@);
                    said_of_both(head.push(Doc::line()), rest, "////"@);
                } else {
                    let next = items.skip(i + 1);
                    assert(next.drop_first() =~= items.skip(i + 2));
                    assert(next[0] == items[i + 1]);
                    assert(popped_in_order(next) =~= popped_in_order(items.skip(i + 2)));
                    if i + 2 < items.len() {
                        said_of_printed_from(items, i + 2, trailing_newline);
                        let rest = printed_from(items, i + 2, trailing_newline);
                        said_of_both(head.push(Doc::lines(2)), rest, "//"@);
                        said_of_both(head.push(Doc::lines(2)), rest, "///"@);
                        said_of_both(head.push(Doc::lines(2)), rest, "////"@);
                    } else {
                        assert(items.skip(i + 2) =~= Seq::<Option<Seq<char>>>::empty());
                    }
                }
            },
        }
    } else {
        assert(items.skip(i) =~= Seq::<Option<Seq<char>>>::empty());
    }
}

/// Printing a popped run says its comments in their order.
pub proof fn printing_keeps_the_order(items: Seq<Option<Seq<char>>>, trailing_newline: bool)
    ensures
        printed(items, trailing_newline) matches Some(above) ==> {
            &&& said(above, "//"@) =~= popped_in_order(items)
            &&& said(above, "///"@) =~= Seq::empty()
            &&& said(above, "////"@) =~= Seq::empty()
            &&& !(above is String)
        },
        printed(items, trailing_newline) is None ==> popped_in_order(items) =~= Seq::empty(),
{
    reveal_with_fuel(said, 3);
    said_of_printed_from(items, 0, trailing_newline);
    said_of_concat(printed_from(items, 0, trailing_newline), "//"@);
    said_of_concat(printed_from(items, 0, trailing_newline), "///"@);
    said_of_concat(printed_from(items, 0, trailing_newline), "////"@);
    assert(items.skip(0) =~= items);
}

/// What is left of comments after a pop: the rest, past the limit.
pub proof fn the_rest_is_past(notes: Seq<Note>, limit: u32)
    requires
        ascending(starts_of(notes)),
    ensures
        reach(starts_of(notes), limit) <= notes.len(),
        past(notes.skip(reach(starts_of(notes), limit) as int), limit),
        is_rest(notes.skip(reach(starts_of(notes), limit) as int), notes),
        texts_in_order(notes) =~= texts_in_order(
            notes.take(reach(starts_of(notes), limit) as int),
        ) + texts_in_order(notes.skip(reach(starts_of(notes), limit) as int)),
{
    reach_splits_at_the_limit(starts_of(notes), limit);
    let k = reach(starts_of(notes), limit) as int;
    assert forall|i: int| 0 <= i < notes.skip(k).len() implies (#[trigger] notes.skip(k)[i]).start
        > limit by {
        assert(starts_of(notes)[k + i] > limit);
    }
}

/// Popping comments and printing them above a document keeps the order.
pub proof fn commenting_follows(t: Trivia, limit: u32)
    requires
        t.ordered(),
    ensures
        forall|doc: Doc|
            !(doc is String) ==> {
                &&& said(#[trigger] commented_doc(doc, t.comments_upto(limit)), "//"@)
                    =~= popped_in_order(t.comments_upto(limit)) + said(doc, "//"@)
                &&& said(commented_doc(doc, t.comments_upto(limit)), "///"@) =~= said(doc, "///"@)
                &&& said(commented_doc(doc, t.comments_upto(limit)), "////"@) =~= said(
                    doc,
                    "////"@,
                )
                &&& !(commented_doc(doc, t.comments_upto(limit)) is String)
            },
        texts_in_order(t.comments) =~= popped_in_order(t.comments_upto(limit)) + texts_in_order(
            t.after_comments(limit).comments,
        ),
        is_rest(t.after_comments(limit).comments, t.comments),
        past(t.after_comments(limit).comments, limit),
        t.after_comments(limit).ordered(),
        past(t.comments, limit) ==> t.after_comments(limit).comments == t.comments
            && t.comments_upto(limit).len() == 0,
{
    pops_keep_the_order(t, limit);
    popping_keeps_the_order(t.comments, t.empty_lines, limit, true);
    the_rest_is_past(t.comments, limit);
    printing_keeps_the_order(t.comments_upto(limit), true);
    assert forall|doc: Doc| !(doc is String) implies {
        &&& said(#[trigger] commented_doc(doc, t.comments_upto(limit)), "//"@) =~= popped_in_order(
            t.comments_upto(limit),
        ) + said(doc, "//"@)
        &&& said(commented_doc(doc, t.comments_upto(limit)), "///"@) =~= said(doc, "///"@)
        &&& said(commented_doc(doc, t.comments_upto(limit)), "////"@) =~= said(doc, "////"@)
        &&& !(commented_doc(doc, t.comments_upto(limit)) is String)
    } by {
        reveal_with_fuel(said, 3);
    }
    if past(t.comments, limit) {
        if t.comments.len() > 0 {
            assert(t.comments[0].start > limit);
            assert(starts_of(t.comments)[0] > limit);
        }
        assert(reach(starts_of(t.comments), limit) == 0);
        assert(t.comments.skip(0) =~= t.comments);
    }
}

/// One more document after a list of documents.
pub proof fn one_more_follows(t: Trivia, before: LoweredAll, next: Lowered)
    requires
        follows_all(t, before),
        follows(before.trivia, next),
    ensures
        follows_all(t, LoweredAll { docs: before.docs.push(next.doc), trivia: next.trivia }),
{
    said_of_pushed(before.docs, next.doc, "//"@);
    said_of_pushed(before.docs, next.doc, "///"@);
    said_of_pushed(before.docs, next.doc, "////"@);
}

/// No document at all.
pub proof fn none_follows(t: Trivia)
    requires
        t.ordered(),
    ensures
        follows_all(t, LoweredAll { docs: Seq::empty(), trivia: t }),
{
    assert(t.comments.skip(0) =~= t.comments);
    assert(t.doc_comments.skip(0) =~= t.doc_comments);
}

/// A quiet document lowered without a pop.
pub proof fn quiet_follows(t: Trivia, doc: Doc)
    requires
        t.ordered(),
        quiet(doc),
    ensures
        follows(t, Lowered { doc, trivia: t }),
{
    assert(t.comments.skip(0) =~= t.comments);
    assert(t.doc_comments.skip(0) =~= t.doc_comments);
}

/// `is_rest` of `is_rest`.
pub proof fn rest_of_rest(a: Seq<Note>, b: Seq<Note>, c: Seq<Note>)
    requires
        is_rest(a, b),
        is_rest(b, c),
    ensures
        is_rest(a, c),
{
}

/// What is left of comments that lie past a limit lies past it.
pub proof fn rest_stays_past(rest: Seq<Note>, all: Seq<Note>, limit: u32)
    requires
        is_rest(rest, all),
        past(all, limit),
    ensures
        past(rest, limit),
{
    assert forall|i: int| 0 <= i < rest.len() implies (#[trigger] rest[i]).start > limit by {
        assert(rest[i] == all[all.len() - rest.len() + i]);
    }
}

/// The lemmas about wrapped documents, for every prefix at once.
pub proof fn wrapped_says(docs: Seq<Doc>, doc: Doc, simple: bool)
    requires
        no_bare_buffer(docs),
        !(doc is String),
    ensures
        forall|prefix: Seq<char>|
            #![trigger said(wrap_args_doc(docs), prefix)]
            #![trigger said(wrap_args_with_spread_doc(docs), prefix)]
            #![trigger said(bit_array_doc(docs, simple), prefix)]
            #![trigger said(wrap_block_doc(doc), prefix)]
            #![trigger said(break_block_doc(doc), prefix)]
            {
                &&& said(wrap_args_doc(docs), prefix) =~= said_all(docs, prefix)
                &&& said(wrap_args_with_spread_doc(docs), prefix) =~= said_all(docs, prefix)
                &&& said(bit_array_doc(docs, simple), prefix) =~= said_all(docs, prefix)
                &&& said(wrap_block_doc(doc), prefix) =~= said(doc, prefix)
                &&& said(break_block_doc(doc), prefix) =~= said(doc, prefix)
            },
        quiet(comma_doc(simple)),
        quiet(pub_doc(simple)),
        !(wrap_args_doc(docs) is String),
        !(wrap_args_with_spread_doc(docs) is String),
        !(bit_array_doc(docs, simple) is String),
        !(wrap_block_doc(doc) is String),
        !(break_block_doc(doc) is String),
{
    assert forall|prefix: Seq<char>|
        #![trigger said(wrap_args_doc(docs), prefix)]
        #![trigger said(wrap_args_with_spread_doc(docs), prefix)]
        #![trigger said(bit_array_doc(docs, simple), prefix)]
        #![trigger said(wrap_block_doc(doc), prefix)]
        #![trigger said(break_block_doc(doc), prefix)]
        {
            &&& said(wrap_args_doc(docs), prefix) =~= said_all(docs, prefix)
            &&& said(wrap_args_with_spread_doc(docs), prefix) =~= said_all(docs, prefix)
            &&& said(bit_array_doc(docs, simple), prefix) =~= said_all(docs, prefix)
            &&& said(wrap_block_doc(doc), prefix) =~= said(doc, prefix)
            &&& said(break_block_doc(doc), prefix) =~= said(doc, prefix)
        } by {
        said_of_wrapped(docs, doc, simple, prefix);
    }
    said_of_wrapped(docs, doc, simple, "//"@);
    said_of_wrapped(docs, doc, simple, "///"@);
    said_of_wrapped(docs, doc, simple, "////"@);
}

/// The lemma about joins, for every prefix at once.
pub proof fn join_says(docs: Seq<Doc>, separator: Doc)
    requires
        quiet_for_all(separator),
        no_bare_buffer(docs),
    ensures
        forall|prefix: Seq<char>|
            #![trigger said(Doc::join(docs, separator), prefix)]
            #![trigger said(Doc::concat(interspersed(docs, separator)), prefix)]
            {
                &&& said(Doc::join(docs, separator), prefix) =~= said_all(docs, prefix)
                &&& said(Doc::concat(interspersed(docs, separator)), prefix) =~= said_all(
                    docs,
                    prefix,
                )
            },
        !(Doc::join(docs, separator) is String),
{
    assert forall|prefix: Seq<char>|
        #![trigger said(Doc::join(docs, separator), prefix)]
        #![trigger said(Doc::concat(interspersed(docs, separator)), prefix)]
        {
            &&& said(Doc::join(docs, separator), prefix) =~= said_all(docs, prefix)
            &&& said(Doc::concat(interspersed(docs, separator)), prefix) =~= said_all(docs, prefix)
        } by {
        said_of_join(docs, separator, prefix);
    }
    said_of_join(docs, separator, "//"@);
}

/// The lemma about concatenations, for every prefix at once.
pub proof fn concat_says(docs: Seq<Doc>)
    requires
        no_bare_buffer(docs),
    ensures
        forall|prefix: Seq<char>| #[trigger]
            said(Doc::concat(docs), prefix) =~= said_all(docs, prefix),
        !(Doc::concat(docs) is String),
{
    assert forall|prefix: Seq<char>| #[trigger]
        said(Doc::concat(docs), prefix) =~= said_all(docs, prefix) by {
        said_of_concat(docs, prefix);
    }
    said_of_concat(docs, "//"@);
}

/// Whether a document says nothing after any prefix, and is no bare buffer.
pub open spec fn quiet_for_all(doc: Doc) -> bool {
    &&& forall|prefix: Seq<char>| #[trigger] said(doc, prefix) =~= Seq::empty()
    &&& !(doc is String)
}

/// The lemma about operands, for every prefix at once.
pub proof fn operands_say(
    name: Seq<char>,
    precedence: u8,
    left: Doc,
    left_precedence: u8,
    right: Doc,
    right_precedence: u8,
)
    requires
        !(left is String),
        !(right is String),
    ensures
        forall|prefix: Seq<char>|
            #![trigger said(operator_side_doc(left, precedence, left_precedence), prefix)]
            #![trigger said(binary_doc(name, precedence, left, left_precedence, right, right_precedence), prefix)]
            {
                &&& said(operator_side_doc(left, precedence, left_precedence), prefix) =~= said(
                    left,
                    prefix,
                )
                &&& said(
                    binary_doc(name, precedence, left, left_precedence, right, right_precedence),
                    prefix,
                ) =~= said(left, prefix) + said(right, prefix)
            },
        !(operator_side_doc(left, precedence, left_precedence) is String),
        !(binary_doc(name, precedence, left, left_precedence, right, right_precedence) is String),
{
    assert forall|prefix: Seq<char>|
        #![trigger said(operator_side_doc(left, precedence, left_precedence), prefix)]
        #![trigger said(binary_doc(name, precedence, left, left_precedence, right, right_precedence), prefix)]
        {
            &&& said(operator_side_doc(left, precedence, left_precedence), prefix) =~= said(
                left,
                prefix,
            )
            &&& said(
                binary_doc(name, precedence, left, left_precedence, right, right_precedence),
                prefix,
            ) =~= said(left, prefix) + said(right, prefix)
        } by {
        said_of_operands(name, precedence, left, left_precedence, right, right_precedence, prefix);
    }
    said_of_operands(name, precedence, left, left_precedence, right, right_precedence, "//"@);
}

/// An option says what the value of its size says, and nothing else.
pub proof fn an_option_says<T>(option: &crate::ast::BitArrayOption<T>, inner: Doc)
    requires
        !(inner is String),
    ensures
        forall|prefix: Seq<char>|
            #![trigger said(crate::segment::option_doc(option, inner), prefix)]
            said(crate::segment::option_doc(option, inner), prefix) =~= (if option is Size {
                said(inner, prefix)
            } else {
                Seq::empty()
            }),
        !(crate::segment::option_doc(option, inner) is String),
{
    reveal_with_fuel(said, 6);
}

/// A literal says no comment.
pub proof fn literals_are_quiet(value: Seq<char>)
    ensures
        quiet(crate::literal::int_doc(value)),
        quiet(crate::literal::float_doc(value)),
        quiet(crate::literal::string_doc(value)),
{
    crate::comments::plain::literals_are_plain(value);
    plain_is_quiet(crate::literal::int_doc(value));
    plain_is_quiet(crate::literal::float_doc(value));
    plain_is_quiet(crate::literal::string_doc(value));
}

/// A type annotation says no comment.
pub proof fn types_are_quiet(t: &crate::ast::TypeAst)
    ensures
        quiet(crate::types::type_doc(t)),
{
    crate::comments::plain::types_are_plain(t);
    plain_is_quiet(crate::types::type_doc(t));
}

/// A clause guard says no comment.
pub proof fn guards_are_quiet(guard: &crate::ast::ClauseGuard)
    ensures
        quiet(crate::guard::guard_doc(guard)),
{
    crate::comments::plain::guards_are_plain(guard);
    plain_is_quiet(crate::guard::guard_doc(guard));
}

/// The same construct in another document that says the same.
pub proof fn reshaped(t: Trivia, inner: Lowered, doc: Doc)
    requires
        follows(t, inner),
        forall|prefix: Seq<char>| #[trigger] said(doc, prefix) =~= said(inner.doc, prefix),
        !(doc is String),
    ensures
        follows(t, Lowered { doc, trivia: inner.trivia }),
{
}

/// Two constructs lowered one after the other, in a document that says what
/// the first says and then what the second says.
pub proof fn one_after_the_other(t: Trivia, first: Lowered, second: Lowered, doc: Doc)
    requires
        follows(t, first),
        follows(first.trivia, second),
        forall|prefix: Seq<char>|
            #[trigger] said(doc, prefix) =~= said(first.doc, prefix) + said(second.doc, prefix),
        !(doc is String),
    ensures
        follows(t, Lowered { doc, trivia: second.trivia }),
{
    rest_of_rest(second.trivia.comments, first.trivia.comments, t.comments);
    rest_of_rest(second.trivia.doc_comments, first.trivia.doc_comments, t.doc_comments);
    assert(texts_in_order(t.comments) =~= said(doc, "//"@) + texts_in_order(
        second.trivia.comments,
    ));
    assert(texts_in_order(t.doc_comments) =~= said(doc, "///"@) + texts_in_order(
        second.trivia.doc_comments,
    ));
}

/// A list of constructs as one document.
pub proof fn as_one(t: Trivia, all: LoweredAll, doc: Doc)
    requires
        follows_all(t, all),
        forall|prefix: Seq<char>| #[trigger] said(doc, prefix) =~= said_all(all.docs, prefix),
        !(doc is String),
    ensures
        follows(t, Lowered { doc, trivia: all.trivia }),
{
}

/// A construct under the comments that were popped before it.
pub proof fn commented_follows(t: Trivia, limit: u32, inner: Lowered)
    requires
        t.ordered(),
        follows(t.after_comments(limit), inner),
    ensures
        follows(
            t,
            Lowered {
                doc: commented_doc(inner.doc, t.comments_upto(limit)),
                trivia: inner.trivia,
            },
        ),
{
    commenting_follows(t, limit);
    let t1 = t.after_comments(limit);
    let doc = commented_doc(inner.doc, t.comments_upto(limit));
    rest_of_rest(inner.trivia.comments, t1.comments, t.comments);
    assert(said(doc, "//"@) =~= popped_in_order(t.comments_upto(limit)) + said(inner.doc, "//"@));
    assert(texts_in_order(t.comments) =~= said(doc, "//"@) + texts_in_order(
        inner.trivia.comments,
    ));
}

/// The cursor after a pop of comments, ready for what is lowered next.
pub proof fn after_a_pop(t: Trivia, limit: u32)
    requires
        t.ordered(),
    ensures
        t.after_comments(limit).ordered(),
        t.after_empty_lines(limit).ordered(),
        t.after_doc_comments(limit).ordered(),
{
    pops_keep_the_order(t, limit);
}

/// A line break, or any other quiet document, after a list of documents.
pub proof fn a_separator_follows(t: Trivia, before: LoweredAll, separator: Doc)
    requires
        follows_all(t, before),
        quiet_for_all(separator),
    ensures
        follows_all(t, LoweredAll { docs: before.docs.push(separator), trivia: before.trivia }),
{
    said_of_pushed(before.docs, separator, "//"@);
    said_of_pushed(before.docs, separator, "///"@);
    said_of_pushed(before.docs, separator, "////"@);
}

/// A pop of blank lines after a list of documents.
pub proof fn blank_lines_follow_all(t: Trivia, before: LoweredAll, limit: u32)
    requires
        follows_all(t, before),
    ensures
        follows_all(
            t,
            LoweredAll { docs: before.docs, trivia: before.trivia.after_empty_lines(limit) },
        ),
{
    pops_keep_the_order(before.trivia, limit);
}

/// A pop of blank lines before a construct.
pub proof fn after_blank_lines(t: Trivia, limit: u32, inner: Lowered)
    requires
        t.ordered(),
        follows(t.after_empty_lines(limit), inner),
    ensures
        follows(t, inner),
{
    pops_keep_the_order(t, limit);
}

/// A pop of comments that are printed after a construct, or not at all
/// where there are none.
pub proof fn trailing_follows(t: Trivia, first: Lowered, limit: u32)
    requires
        t.ordered(),
        follows(t, first),
    ensures
        follows(
            t,
            Lowered {
                doc: match printed(first.trivia.comments_upto(limit), false) {
                    Some(comments) => first.doc.append(Doc::line()).append(comments),
                    None => first.doc,
                },
                trivia: first.trivia.after_comments(limit),
            },
        ),
{
    let rest = first.trivia;
    commenting_follows(rest, limit);
    printing_keeps_the_order(rest.comments_upto(limit), false);
    rest_of_rest(rest.after_comments(limit).comments, rest.comments, t.comments);
    let doc = match printed(rest.comments_upto(limit), false) {
        Some(comments) => first.doc.append(Doc::line()).append(comments),
        None => first.doc,
    };
    assert(said(doc, "//"@) =~= said(first.doc, "//"@) + popped_in_order(
        rest.comments_upto(limit),
    )) by {
        reveal_with_fuel(said, 3);
    }
    assert(said(doc, "///"@) =~= said(first.doc, "///"@)) by {
        reveal_with_fuel(said, 3);
    }
    assert(said(doc, "////"@) =~= said(first.doc, "////"@)) by {
        reveal_with_fuel(said, 3);
    }
    assert(texts_in_order(t.comments) =~= said(doc, "//"@) + texts_in_order(
        rest.after_comments(limit).comments,
    ));
}

/// How `said` goes through a document, one step at a time: a concatenation
/// says what its parts say, a layer says what it holds, and a leaf says
/// nothing.
pub proof fn said_step_by_step()
    ensures
        forall|a: Doc, b: Doc, prefix: Seq<char>|
            !(b is String) ==> #[trigger] said(Doc::Cons(Box::new(a), Box::new(b)), prefix) == said(
                a,
                prefix,
            ) + said(b, prefix),
        forall|n: nat, d: Doc, prefix: Seq<char>| #[trigger]
            said(Doc::Nest(n, Box::new(d)), prefix) == said(d, prefix),
        forall|d: Doc, prefix: Seq<char>| #[trigger]
            said(Doc::Group(Box::new(d)), prefix) == said(d, prefix),
        forall|d: Doc, prefix: Seq<char>| #[trigger]
            said(Doc::ForceBreak(Box::new(d)), prefix) == said(d, prefix),
        forall|s: Seq<char>, prefix: Seq<char>| #[trigger]
            said(Doc::Text(s), prefix) == Seq::<Seq<char>>::empty(),
        forall|n: nat, prefix: Seq<char>| #[trigger]
            said(Doc::Line(n), prefix) == Seq::<Seq<char>>::empty(),
        forall|broken: Seq<char>, unbroken: Seq<char>, flex: bool, prefix: Seq<char>| #[trigger]
            said(Doc::Break { broken, unbroken, flex }, prefix) == Seq::<Seq<char>>::empty(),
        forall|prefix: Seq<char>| #[trigger] said(Doc::Nil, prefix) == Seq::<Seq<char>>::empty(),
{
    assert forall|a: Doc, b: Doc, prefix: Seq<char>| !(b is String) implies #[trigger] said(
        Doc::Cons(Box::new(a), Box::new(b)),
        prefix,
    ) == said(a, prefix) + said(b, prefix) by {}
}

/// A type says nothing after any prefix.
pub proof fn types_say_nothing(t: &crate::ast::TypeAst)
    ensures
        quiet_for_all(crate::types::type_doc(t)),
{
    crate::comments::plain::types_are_plain(t);
    plain_is_quiet(crate::types::type_doc(t));
}

/// A literal says nothing, whatever the prefix.
pub proof fn literals_say_nothing(value: Seq<char>)
    ensures
        quiet_for_all(crate::literal::int_doc(value)),
        quiet_for_all(crate::literal::float_doc(value)),
        quiet_for_all(crate::literal::string_doc(value)),
{
    crate::comments::plain::literals_are_plain(value);
    plain_is_quiet(crate::literal::int_doc(value));
    plain_is_quiet(crate::literal::float_doc(value));
    plain_is_quiet(crate::literal::string_doc(value));
}

/// A document that says nothing after any prefix, lowered without a pop.
pub proof fn silent_follows(t: Trivia, doc: Doc)
    requires
        t.ordered(),
        quiet_for_all(doc),
    ensures
        follows(t, Lowered { doc, trivia: t }),
{
    assert(t.comments.skip(0) =~= t.comments);
    assert(t.doc_comments.skip(0) =~= t.doc_comments);
}

} // verus!
