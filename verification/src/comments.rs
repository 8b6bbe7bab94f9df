//! Every comment is printed once.
//!
//! A comment reaches a document as an owned text buffer, and nothing else
//! does. The lemmas of this module follow the buffers through the lowering:
//! what a construct prints and what it leaves in the cursor are together what
//! the cursor held before.

pub mod definitions;
pub mod exprs;
pub mod patterns;
pub mod plain;
pub mod rendering;

use vstd::multiset::Multiset;
use vstd::prelude::*;
use crate::pretty::{interspersed, Doc};
use crate::trivia::{
    blank_marks,
    coalesced,
    comment_doc,
    comment_marks,
    commented_doc,
    merged,
    payloads,
    popped,
    pops_keep_the_order,
    printed,
    printed_from,
    reach,
    reach_is_bounded,
    single_runs,
    starts_of,
    without_leading_blanks,
    Lowered,
    LoweredAll,
    Mark,
    Note,
    Run,
    Trivia,
};
use crate::wrap::{
    bit_array_doc,
    break_block_doc,
    comma_doc,
    pub_doc,
    wrap_args_doc,
    wrap_args_with_spread_doc,
    wrap_block_doc,
};

verus! {

/// The owned text buffers of a document, each as often as it occurs.
pub open spec fn buffers(doc: Doc) -> Multiset<Seq<char>>
    decreases doc,
{
    match doc {
        Doc::String(s) => Multiset::singleton(s),
        Doc::Cons(a, b) => buffers(*a).add(buffers(*b)),
        Doc::Nest(_, d) => buffers(*d),
        Doc::Group(d) => buffers(*d),
        Doc::ForceBreak(d) => buffers(*d),
        _ => Multiset::empty(),
    }
}

/// The owned text buffers of a list of documents.
pub open spec fn all_buffers(docs: Seq<Doc>) -> Multiset<Seq<char>>
    decreases docs.len(),
{
    if docs.len() == 0 {
        Multiset::empty()
    } else {
        all_buffers(docs.drop_last()).add(buffers(docs.last()))
    }
}

/// The texts of a sequence of comments, each as often as it occurs.
pub open spec fn texts(notes: Seq<Note>) -> Multiset<Seq<char>>
    decreases notes.len(),
{
    if notes.len() == 0 {
        Multiset::empty()
    } else {
        Multiset::singleton(notes[0].text).add(texts(notes.drop_first()))
    }
}

/// The comments among what was popped.
pub open spec fn popped_texts(items: Seq<Option<Seq<char>>>) -> Multiset<Seq<char>>
    decreases items.len(),
{
    if items.len() == 0 {
        Multiset::empty()
    } else {
        let rest = popped_texts(items.drop_first());
        match items[0] {
            Some(text) => Multiset::singleton(text).add(rest),
            None => rest,
        }
    }
}

/// The comments and doc comments that a cursor still holds.
pub open spec fn pending(t: Trivia) -> Multiset<Seq<char>> {
    texts(t.comments).add(texts(t.doc_comments))
}

/// What was printed and what is left are together what there was; the
/// module comments were not touched; and what is left is in order if what
/// there was is.
pub open spec fn conserves(before: Trivia, after: Lowered) -> bool {
    &&& buffers(after.doc).add(pending(after.trivia)) =~= pending(before)
    &&& after.trivia.module_comments == before.module_comments
    &&& before.ordered() ==> after.trivia.ordered()
}

/// `conserves` for a list of documents.
pub open spec fn conserves_all(before: Trivia, after: LoweredAll) -> bool {
    &&& all_buffers(after.docs).add(pending(after.trivia)) =~= pending(before)
    &&& after.trivia.module_comments == before.module_comments
    &&& before.ordered() ==> after.trivia.ordered()
}

/// One more document adds its buffers to those of the list.
pub proof fn buffers_of_pushed(docs: Seq<Doc>, doc: Doc)
    ensures
        all_buffers(docs.push(doc)) =~= all_buffers(docs).add(buffers(doc)),
{
    assert(docs.push(doc).drop_last() =~= docs);
}

/// Two lists put together hold the buffers of both.
pub proof fn buffers_of_both(a: Seq<Doc>, b: Seq<Doc>)
    ensures
        all_buffers(a + b) =~= all_buffers(a).add(all_buffers(b)),
    decreases b.len(),
{
    if b.len() == 0 {
        assert(a + b =~= a);
    } else {
        buffers_of_both(a, b.drop_last());
        assert((a + b).drop_last() =~= a + b.drop_last());
    }
}

/// The buffers of a list are those of its first document and those of the
/// rest.
pub proof fn buffers_from_the_front(docs: Seq<Doc>)
    requires
        docs.len() > 0,
    ensures
        all_buffers(docs) =~= buffers(docs[0]).add(all_buffers(docs.drop_first())),
    decreases docs.len(),
{
    if docs.len() == 1 {
        assert(docs.drop_last() =~= Seq::<Doc>::empty());
        assert(docs.drop_first() =~= Seq::<Doc>::empty());
    } else {
        buffers_from_the_front(docs.drop_last());
        assert(docs.drop_last().drop_first() =~= docs.drop_first().drop_last());
    }
}

/// A concatenation holds the buffers of its parts.
pub proof fn buffers_of_concat(docs: Seq<Doc>)
    ensures
        buffers(Doc::concat(docs)) =~= all_buffers(docs),
    decreases docs.len(),
{
    if docs.len() == 1 {
        assert(docs.drop_last() =~= Seq::<Doc>::empty());
        assert(all_buffers(Seq::<Doc>::empty()) =~= Multiset::empty());
    } else if docs.len() > 1 {
        let half = docs.len() as int / 2;
        buffers_of_concat(docs.take(half));
        buffers_of_concat(docs.skip(half));
        buffers_of_both(docs.take(half), docs.skip(half));
        assert(docs.take(half) + docs.skip(half) =~= docs);
    }
}

proof fn buffers_of_interspersed(docs: Seq<Doc>, separator: Doc)
    requires
        buffers(separator) =~= Multiset::empty(),
    ensures
        all_buffers(interspersed(docs, separator)) =~= all_buffers(docs),
    decreases docs.len(),
{
    if docs.len() > 1 {
        buffers_of_interspersed(docs.drop_last(), separator);
        let before = interspersed(docs.drop_last(), separator);
        buffers_of_pushed(before, separator);
        buffers_of_pushed(before.push(separator), docs.last());
    }
}

/// A join with a separator that holds no buffer holds the buffers of its
/// parts.
pub proof fn buffers_of_join(docs: Seq<Doc>, separator: Doc)
    requires
        buffers(separator) =~= Multiset::empty(),
    ensures
        buffers(Doc::join(docs, separator)) =~= all_buffers(docs),
        buffers(Doc::concat(interspersed(docs, separator))) =~= all_buffers(docs),
{
    buffers_of_interspersed(docs, separator);
    buffers_of_concat(interspersed(docs, separator));
}

/// Brackets, braces and separators add no buffer to what they enclose.
pub proof fn buffers_of_wrapped(docs: Seq<Doc>, doc: Doc, simple: bool)
    ensures
        buffers(wrap_args_doc(docs)) =~= all_buffers(docs),
        buffers(wrap_args_with_spread_doc(docs)) =~= all_buffers(docs),
        buffers(bit_array_doc(docs, simple)) =~= all_buffers(docs),
        buffers(wrap_block_doc(doc)) =~= buffers(doc),
        buffers(break_block_doc(doc)) =~= buffers(doc),
        buffers(comma_doc(simple)) =~= Multiset::empty(),
        buffers(pub_doc(simple)) =~= Multiset::empty(),
{
    reveal_with_fuel(buffers, 8);
    buffers_of_join(docs, Doc::break_(","@, ", "@));
    buffers_of_join(docs, comma_doc(simple));
    if docs.len() == 0 {
        assert(all_buffers(docs) =~= Multiset::empty());
    }
}

proof fn texts_split(notes: Seq<Note>, k: int)
    requires
        0 <= k <= notes.len(),
    ensures
        texts(notes) =~= texts(notes.take(k)).add(texts(notes.skip(k))),
    decreases k,
{
    if k == 0 {
        assert(notes.take(0) =~= Seq::<Note>::empty());
        assert(notes.skip(0) =~= notes);
    } else {
        texts_split(notes.drop_first(), k - 1);
        assert(notes.take(k).drop_first() =~= notes.drop_first().take(k - 1));
        assert(notes.drop_first().skip(k - 1) =~= notes.skip(k));
    }
}

/// The comments among marks.
spec fn mark_texts(marks: Seq<Mark>) -> Multiset<Seq<char>>
    decreases marks.len(),
{
    if marks.len() == 0 {
        Multiset::empty()
    } else {
        let rest = mark_texts(marks.drop_first());
        match marks[0].1 {
            Some(text) => Multiset::singleton(text).add(rest),
            None => rest,
        }
    }
}

proof fn texts_of_comment_marks(notes: Seq<Note>)
    ensures
        mark_texts(comment_marks(notes)) =~= texts(notes),
    decreases notes.len(),
{
    if notes.len() > 0 {
        texts_of_comment_marks(notes.drop_first());
        assert(comment_marks(notes).drop_first() =~= comment_marks(notes.drop_first()));
    }
}

proof fn texts_of_blank_marks(runs: Seq<Run>)
    ensures
        mark_texts(blank_marks(runs)) =~= Multiset::empty(),
    decreases runs.len(),
{
    if runs.len() > 0 {
        texts_of_blank_marks(runs.drop_first());
        assert(blank_marks(runs).drop_first() =~= blank_marks(runs.drop_first()));
    }
}

proof fn texts_of_merged(left: Seq<Mark>, right: Seq<Mark>)
    ensures
        mark_texts(merged(left, right)) =~= mark_texts(left).add(mark_texts(right)),
    decreases left.len() + right.len(),
{
    if left.len() == 0 || right.len() == 0 {
    } else if left[0].0 < right[0].0 {
        texts_of_merged(left.drop_first(), right);
        let all = seq![left[0]] + merged(left.drop_first(), right);
        assert(all.drop_first() =~= merged(left.drop_first(), right));
    } else {
        texts_of_merged(left, right.drop_first());
        let all = seq![right[0]] + merged(left, right.drop_first());
        assert(all.drop_first() =~= merged(left, right.drop_first()));
    }
}

proof fn texts_without_leading_blanks(marks: Seq<Mark>)
    ensures
        mark_texts(without_leading_blanks(marks)) =~= mark_texts(marks),
    decreases marks.len(),
{
    if marks.len() > 0 && marks[0].1 is None {
        texts_without_leading_blanks(marks.drop_first());
    }
}

proof fn texts_of_payloads(marks: Seq<Mark>)
    ensures
        popped_texts(payloads(marks)) =~= mark_texts(marks),
    decreases marks.len(),
{
    if marks.len() > 0 {
        texts_of_payloads(marks.drop_first());
        assert(payloads(marks).drop_first() =~= payloads(marks.drop_first()));
    }
}

/// Popping hands out each comment before the split once, and no other.
pub proof fn popping_hands_out_the_comments(
    notes: Seq<Note>,
    lines: Seq<u32>,
    limit: u32,
    retain: bool,
)
    ensures
        reach(starts_of(notes), limit) <= notes.len(),
        popped_texts(popped(notes, lines, limit, retain)) =~= texts(
            notes.take(reach(starts_of(notes), limit) as int),
        ),
        texts(notes) =~= popped_texts(popped(notes, lines, limit, retain)).add(
            texts(notes.skip(reach(starts_of(notes), limit) as int)),
        ),
{
    reach_is_bounded(starts_of(notes), limit);
    let taken = notes.take(reach(starts_of(notes), limit) as int);
    let blanks = if retain {
        coalesced(single_runs(lines.take(reach(lines, limit) as int)))
    } else {
        Seq::empty()
    };
    let all = merged(comment_marks(taken), blank_marks(blanks));
    texts_of_comment_marks(taken);
    texts_of_blank_marks(blanks);
    texts_of_merged(comment_marks(taken), blank_marks(blanks));
    texts_without_leading_blanks(all);
    texts_of_payloads(without_leading_blanks(all));
    texts_split(notes, reach(starts_of(notes), limit) as int);
}

proof fn buffers_of_printed_from(items: Seq<Option<Seq<char>>>, i: int, trailing_newline: bool)
    requires
        0 <= i <= items.len(),
    ensures
        all_buffers(printed_from(items, i, trailing_newline)) =~= popped_texts(items.skip(i)),
    decreases items.len() - i,
{
    reveal_with_fuel(buffers, 3);
    if i < items.len() {
        let here = items.skip(i);
        assert(here.drop_first() =~= items.skip(i + 1));
        assert(here[0] == items[i]);
        match items[i] {
            None => {
                buffers_of_printed_from(items, i + 1, trailing_newline);
                assert(popped_texts(here) =~= popped_texts(items.skip(i + 1)));
            },
            Some(text) => {
                assert(popped_texts(here) =~= Multiset::singleton(text).add(
                    popped_texts(items.skip(i + 1)),
                ));
                let head = seq![comment_doc(text)];
                assert(head =~= Seq::<Doc>::empty().push(comment_doc(text)));
                buffers_of_pushed(Seq::<Doc>::empty(), comment_doc(text));
                assert(all_buffers(head) =~= Multiset::singleton(text));
                buffers_of_pushed(head, Doc::line());
                buffers_of_pushed(head, Doc::lines(2));
                if i + 1 >= items.len() {
                    assert(items.skip(i + 1) =~= Seq::<Option<Seq<char>>>::empty());
                } else if items[i + 1] is Some {
                    buffers_of_printed_from(items, i + 1, trailing_newline);
                    buffers_of_both(
                        head.push(Doc::line()),
                        printed_from(items, i + 1, trailing_newline),
                    );
                } else {
                    let next = items.skip(i + 1);
                    assert(next.drop_first() =~= items.skip(i + 2));
                    assert(next[0] == items[i + 1]);
                    assert(popped_texts(next) =~= popped_texts(items.skip(i + 2)));
                    assert(popped_texts(here) =~= Multiset::singleton(text).add(
                        popped_texts(next),
                    ));
                    if i + 2 < items.len() {
                        buffers_of_printed_from(items, i + 2, trailing_newline);
                        buffers_of_both(
                            head.push(Doc::lines(2)),
                            printed_from(items, i + 2, trailing_newline),
                        );
                    } else {
                        assert(items.skip(i + 2) =~= Seq::<Option<Seq<char>>>::empty());
                    }
                }
            },
        }
    } else {
        assert(items.skip(i) =~= Seq::<Option<Seq<char>>>::empty());
    }
}

/// Printing a popped run prints each of its comments once.
pub proof fn printing_prints_the_comments(items: Seq<Option<Seq<char>>>, trailing_newline: bool, doc: Doc)
    ensures
        printed(items, trailing_newline) matches Some(above) ==> buffers(above) =~= popped_texts(
            items,
        ),
        printed(items, trailing_newline) is None ==> popped_texts(items) =~= Multiset::empty(),
        buffers(commented_doc(doc, items)) =~= popped_texts(items).add(buffers(doc)),
{
    reveal_with_fuel(buffers, 3);
    buffers_of_printed_from(items, 0, trailing_newline);
    buffers_of_printed_from(items, 0, true);
    buffers_of_concat(printed_from(items, 0, trailing_newline));
    buffers_of_concat(printed_from(items, 0, true));
    assert(items.skip(0) =~= items);
}

/// Popping comments and printing them above a document conserves what
/// there is.
pub proof fn commenting_conserves(t: Trivia, limit: u32)
    ensures
        forall|doc: Doc|
            buffers(#[trigger] commented_doc(doc, t.comments_upto(limit))) =~= popped_texts(
                t.comments_upto(limit),
            ).add(buffers(doc)),
        pending(t) =~= popped_texts(t.comments_upto(limit)).add(pending(t.after_comments(limit))),
        t.after_comments(limit).module_comments == t.module_comments,
        t.ordered() ==> t.after_comments(limit).ordered(),
{
    if t.ordered() {
        pops_keep_the_order(t, limit);
    }
    popping_hands_out_the_comments(t.comments, t.empty_lines, limit, true);
    assert forall|doc: Doc|
        buffers(#[trigger] commented_doc(doc, t.comments_upto(limit))) =~= popped_texts(
            t.comments_upto(limit),
        ).add(buffers(doc)) by {
        printing_prints_the_comments(t.comments_upto(limit), true, doc);
    }
}

/// Popping blank lines takes no comment and keeps the order.
pub proof fn blank_lines_conserve(t: Trivia, limit: u32)
    ensures
        pending(t.after_empty_lines(limit)) =~= pending(t),
        t.after_empty_lines(limit).module_comments == t.module_comments,
        t.ordered() ==> t.after_empty_lines(limit).ordered(),
{
    if t.ordered() {
        pops_keep_the_order(t, limit);
    }
}

/// One more document after a list of documents.
pub proof fn one_more_conserves(t: Trivia, before: LoweredAll, next: Lowered)
    requires
        conserves_all(t, before),
        conserves(before.trivia, next),
    ensures
        conserves_all(t, LoweredAll { docs: before.docs.push(next.doc), trivia: next.trivia }),
{
    buffers_of_pushed(before.docs, next.doc);
}

} // verus!
