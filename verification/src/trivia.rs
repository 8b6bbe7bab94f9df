//! Trivia: comments and blank lines, which are no part of the syntax tree and
//! are put back by their byte offsets.
//!
//! A [`Formatter`] is a cursor over four sequences ordered by offset. The
//! lowering pops what lies before each construct as it walks the tree from left
//! to right; what was popped is never seen again.

use vstd::prelude::*;
use vstd::slice::*;
use vstd::string::*;
use crate::pretty::{concat, docs_of, line, lines, text, Doc, Document};

verus! {

/// A comment: the offset of its first byte and its text after the slashes.
#[derive(Debug, Clone, Copy, PartialEq, Eq)]
pub struct Comment<'a> {
    pub start: u32,
    pub content: &'a str,
}

/// The model of a [`Comment`].
pub struct Note {
    pub start: u32,
    pub text: Seq<char>,
}

impl<'a> View for Comment<'a> {
    type V = Note;

    open spec fn view(&self) -> Note {
        Note { start: self.start, text: self.content@ }
    }
}

/// An offset with what stands there: a comment's text, or nothing for a blank
/// line.
pub type Mark = (u32, Option<Seq<char>>);

/// A run of blank lines: the offsets of its first and last line.
pub type Run = (u32, u32);

/// The comments as plain values.
pub open spec fn notes_of(s: Seq<Comment<'_>>) -> Seq<Note> {
    Seq::new(s.len(), |i: int| s[i]@)
}

/// The offsets at which the comments start.
pub open spec fn starts_of(notes: Seq<Note>) -> Seq<u32> {
    Seq::new(notes.len(), |i: int| notes[i].start)
}

/// The marks as plain values.
pub open spec fn marks_of(s: Seq<(u32, Option<&str>)>) -> Seq<Mark> {
    Seq::new(
        s.len(),
        |i: int|
            (
                s[i].0,
                match s[i].1 {
                    Some(t) => Some(t@),
                    None => None,
                },
            ),
    )
}

/// The texts as plain values.
pub open spec fn texts_of(s: Seq<Option<&str>>) -> Seq<Option<Seq<char>>> {
    Seq::new(
        s.len(),
        |i: int|
            match s[i] {
                Some(t) => Some(t@),
                None => None,
            },
    )
}

/// How many offsets stand before the first one that is greater than `limit`.
/// In an ascending sequence these are all the offsets up to `limit`.
pub open spec fn reach(offsets: Seq<u32>, limit: u32) -> nat
    decreases offsets.len(),
{
    if offsets.len() == 0 || offsets[0] > limit {
        0
    } else {
        1 + reach(offsets.drop_first(), limit)
    }
}

/// Two runs become one when the second starts on the line after the first.
pub open spec fn joined(a: Run, b: Run) -> Option<Run> {
    if a.1 + 1 == b.0 {
        Some((a.0, b.1))
    } else {
        None
    }
}

/// `acc` and then `rest`, neighbours joined wherever `joined` allows.
pub open spec fn coalesced_from(acc: Run, rest: Seq<Run>) -> Seq<Run>
    decreases rest.len(),
{
    if rest.len() == 0 {
        seq![acc]
    } else {
        match joined(acc, rest[0]) {
            Some(both) => coalesced_from(both, rest.drop_first()),
            None => seq![acc] + coalesced_from(rest[0], rest.drop_first()),
        }
    }
}

/// The runs of `runs` with neighbours joined wherever `joined` allows.
pub open spec fn coalesced(runs: Seq<Run>) -> Seq<Run> {
    if runs.len() == 0 {
        runs
    } else {
        coalesced_from(runs[0], runs.drop_first())
    }
}

/// The two sequences merged: the head of `left` goes first when its offset is
/// smaller than that of the head of `right`, the head of `right` otherwise.
pub open spec fn merged(left: Seq<Mark>, right: Seq<Mark>) -> Seq<Mark>
    decreases left.len() + right.len(),
{
    if left.len() == 0 {
        right
    } else if right.len() == 0 {
        left
    } else if left[0].0 < right[0].0 {
        seq![left[0]] + merged(left.drop_first(), right)
    } else {
        seq![right[0]] + merged(left, right.drop_first())
    }
}

/// `marks` from its first comment on.
pub open spec fn without_leading_blanks(marks: Seq<Mark>) -> Seq<Mark>
    decreases marks.len(),
{
    if marks.len() > 0 && marks[0].1 is None {
        without_leading_blanks(marks.drop_first())
    } else {
        marks
    }
}

/// Each comment as a mark: its start and its text.
pub open spec fn comment_marks(notes: Seq<Note>) -> Seq<Mark> {
    Seq::new(notes.len(), |i: int| (notes[i].start, Some(notes[i].text)))
}

/// Each blank line as a run of one.
pub open spec fn single_runs(lines: Seq<u32>) -> Seq<Run> {
    Seq::new(lines.len(), |i: int| (lines[i], lines[i]))
}

/// Each run of blank lines as a mark: its first line and no text.
pub open spec fn blank_marks(runs: Seq<Run>) -> Seq<Mark> {
    Seq::new(runs.len(), |i: int| (runs[i].0, None))
}

/// What the marks carry, without their offsets.
pub open spec fn payloads(marks: Seq<Mark>) -> Seq<Option<Seq<char>>> {
    Seq::new(marks.len(), |i: int| marks[i].1)
}

/// What popping up to `limit` hands out: the comments that stand before the
/// first one past `limit`, in their order, each as `Some` of its text; where
/// blank lines are retained, one `None` for each run of neighbouring blank
/// lines before the first one past `limit`, at the place its first offset
/// gives it; and no `None` before the first comment.
pub open spec fn popped(notes: Seq<Note>, lines: Seq<u32>, limit: u32, retain: bool) -> Seq<
    Option<Seq<char>>,
> {
    let taken = notes.take(reach(starts_of(notes), limit) as int);
    let blanks = if retain {
        coalesced(single_runs(lines.take(reach(lines, limit) as int)))
    } else {
        Seq::empty()
    };
    payloads(without_leading_blanks(merged(comment_marks(taken), blank_marks(blanks))))
}

/// No more offsets stand before a limit than there are offsets.
pub proof fn reach_is_bounded(offsets: Seq<u32>, limit: u32)
    ensures
        reach(offsets, limit) <= offsets.len(),
    decreases offsets.len(),
{
    if offsets.len() != 0 && offsets[0] <= limit {
        reach_is_bounded(offsets.drop_first(), limit);
    }
}

/// The reach, found one offset at a time.
proof fn reach_step(offsets: Seq<u32>, limit: u32, i: int)
    requires
        0 <= i <= offsets.len(),
        reach(offsets, limit) == i + reach(offsets.skip(i), limit),
    ensures
        i < offsets.len() && offsets[i] <= limit ==> reach(offsets, limit) == i + 1 + reach(
            offsets.skip(i + 1),
            limit,
        ),
        i == offsets.len() || offsets[i] > limit ==> reach(offsets, limit) == i,
{
    if i < offsets.len() {
        assert(offsets.skip(i).drop_first() == offsets.skip(i + 1));
        assert(offsets.skip(i)[0] == offsets[i]);
    }
}

/// How many of the comments start at or before `limit`.
fn comments_reach(comments: &[Comment<'_>], limit: u32) -> (end: usize)
    ensures
        end == reach(starts_of(notes_of(comments@)), limit),
        end <= comments@.len(),
{
    let ghost offsets = starts_of(notes_of(comments@));
    let mut end: usize = 0;
    proof {
        assert(offsets.skip(0) == offsets);
    }
    while end < comments.len() && comments[end].start <= limit
        invariant
            end <= comments@.len(),
            offsets == starts_of(notes_of(comments@)),
            reach(offsets, limit) == end + reach(offsets.skip(end as int), limit),
        decreases comments@.len() - end,
    {
        proof {
            reach_step(offsets, limit, end as int);
        }
        end += 1;
    }
    proof {
        reach_step(offsets, limit, end as int);
    }
    end
}

/// How many of the blank lines stand at or before `limit`.
fn lines_reach(lines: &[u32], limit: u32) -> (end: usize)
    ensures
        end == reach(lines@, limit),
        end <= lines@.len(),
{
    let mut end: usize = 0;
    proof {
        assert(lines@.skip(0) == lines@);
    }
    while end < lines.len() && lines[end] <= limit
        invariant
            end <= lines@.len(),
            reach(lines@, limit) == end + reach(lines@.skip(end as int), limit),
        decreases lines@.len() - end,
    {
        proof {
            reach_step(lines@, limit, end as int);
        }
        end += 1;
    }
    proof {
        reach_step(lines@, limit, end as int);
    }
    end
}

/// Joins two runs of blank lines when nothing lies between them.
fn join_runs(a: (u32, u32), b: (u32, u32)) -> (r: Result<(u32, u32), ((u32, u32), (u32, u32))>)
    ensures
        r == match joined(a, b) {
            Some(both) => Ok::<Run, (Run, Run)>(both),
            None => Err((a, b)),
        },
{
    if a.1 < u32::MAX && a.1 + 1 == b.0 {
        Ok((a.0, b.1))
    } else {
        Err((a, b))
    }
}

/// Whether the mark `a` goes before the mark `b` in a merge.
fn starts_before(a: &(u32, Option<&str>), b: &(u32, Option<&str>)) -> (r: bool)
    ensures
        r == (a.0 < b.0),
{
    a.0 < b.0
}

/// Calls `Itertools::coalesce` of the itertools crate with `join_runs` as its
/// closure and collects what it yields. The adaptor keeps one run in hand,
/// starting with the first; for each further run it asks the closure: on `Ok`
/// the joined run replaces the one in hand, on `Err` the one in hand is
/// yielded and the further run takes its place; the run in hand at the end is
/// yielded last.
#[verifier::external_body]
fn coalesce_runs(runs: Vec<(u32, u32)>) -> (r: Vec<(u32, u32)>)
    ensures
        r@ == coalesced(runs@),
{
    itertools::Itertools::coalesce(runs.into_iter(), |a, b| join_runs(a, b)).collect()
}

/// Calls `Itertools::merge_by` of the itertools crate with `starts_before` as
/// its closure and collects what it yields. While both sides have items the
/// adaptor compares their heads and yields the left head where the closure
/// holds and the right head where it does not; when one side is exhausted it
/// yields the rest of the other.
#[verifier::external_body]
fn merge_by_start<'a>(left: Vec<(u32, Option<&'a str>)>, right: Vec<(u32, Option<&'a str>)>) -> (r:
    Vec<(u32, Option<&'a str>)>)
    ensures
        marks_of(r@) == merged(marks_of(left@), marks_of(right@)),
{
    itertools::Itertools::merge_by(left.into_iter(), right, |a, b| starts_before(a, b)).collect()
}

/// Splits trivia at `limit`. Returns what is popped (see [`popped`]), the
/// comments from the first one past `limit` on, and the blank lines from the
/// first one past `limit` on.
pub fn comments_before<'a>(
    comments: &'a [Comment<'a>],
    empty_lines: &'a [u32],
    limit: u32,
    retain_empty_lines: bool,
) -> (r: (Vec<Option<&'a str>>, &'a [Comment<'a>], &'a [u32]))
    ensures
        texts_of(r.0@) == popped(notes_of(comments@), empty_lines@, limit, retain_empty_lines),
        r.1@ == comments@.skip(reach(starts_of(notes_of(comments@)), limit) as int),
        r.2@ == empty_lines@.skip(reach(empty_lines@, limit) as int),
{
    let ghost notes = notes_of(comments@);
    let end_comments = comments_reach(comments, limit);
    let end_empty_lines = lines_reach(empty_lines, limit);

    let mut left: Vec<(u32, Option<&'a str>)> = Vec::new();
    let mut i: usize = 0;
    while i < end_comments
        invariant
            i <= end_comments <= comments@.len(),
            left@.len() == i,
            forall|k: int|
                0 <= k < i ==> left@[k] == (comments@[k].start, Some(comments@[k].content)),
        decreases end_comments - i,
    {
        left.push((comments[i].start, Some(comments[i].content)));
        i += 1;
    }
    assert(marks_of(left@) == comment_marks(notes.take(end_comments as int)));

    let mut runs: Vec<(u32, u32)> = Vec::new();
    if retain_empty_lines {
        let mut k: usize = 0;
        while k < end_empty_lines
            invariant
                k <= end_empty_lines <= empty_lines@.len(),
                runs@.len() == k,
                forall|n: int| 0 <= n < k ==> runs@[n] == (empty_lines@[n], empty_lines@[n]),
            decreases end_empty_lines - k,
        {
            runs.push((empty_lines[k], empty_lines[k]));
            k += 1;
        }
        assert(runs@ == single_runs(empty_lines@.take(end_empty_lines as int)));
    }
    let ghost blanks = if retain_empty_lines {
        coalesced(single_runs(empty_lines@.take(end_empty_lines as int)))
    } else {
        Seq::<Run>::empty()
    };
    let runs = if retain_empty_lines {
        coalesce_runs(runs)
    } else {
        runs
    };
    assert(runs@ == blanks);

    let mut right: Vec<(u32, Option<&'a str>)> = Vec::new();
    let mut k: usize = 0;
    while k < runs.len()
        invariant
            k <= runs@.len(),
            right@.len() == k,
            forall|n: int| 0 <= n < k ==> right@[n] == (runs@[n].0, None::<&str>),
        decreases runs@.len() - k,
    {
        right.push((runs[k].0, None));
        k += 1;
    }
    assert(marks_of(right@) == blank_marks(runs@));

    let all = merge_by_start(left, right);
    let ghost marks = marks_of(all@);
    let mut first: usize = 0;
    proof {
        assert(marks.skip(0) == marks);
    }
    while first < all.len() && all[first].1.is_none()
        invariant
            first <= all@.len(),
            marks == marks_of(all@),
            without_leading_blanks(marks) == without_leading_blanks(marks.skip(first as int)),
        decreases all@.len() - first,
    {
        proof {
            assert(marks.skip(first as int).drop_first() == marks.skip(first + 1));
            assert(marks.skip(first as int)[0] == marks[first as int]);
        }
        first += 1;
    }
    proof {
        if first < all@.len() {
            assert(marks.skip(first as int)[0] == marks[first as int]);
        }
        assert(without_leading_blanks(marks) == marks.skip(first as int));
    }

    let mut out: Vec<Option<&'a str>> = Vec::new();
    let mut j: usize = first;
    while j < all.len()
        invariant
            first <= j <= all@.len(),
            out@.len() == j - first,
            forall|n: int| 0 <= n < j - first ==> out@[n] == all@[first + n].1,
        decreases all@.len() - j,
    {
        out.push(all[j].1);
        j += 1;
    }
    assert(texts_of(out@) == payloads(marks.skip(first as int)));

    let rest = slice_subrange(comments, end_comments, comments.len());
    let rest_lines = slice_subrange(empty_lines, end_empty_lines, empty_lines.len());
    (out, rest, rest_lines)
}

/// The trivia that a cursor has not handed out yet.
pub struct Trivia {
    pub comments: Seq<Note>,
    pub doc_comments: Seq<Note>,
    pub module_comments: Seq<Note>,
    pub empty_lines: Seq<u32>,
}

/// Whether the offsets go strictly up.
pub open spec fn ascending(offsets: Seq<u32>) -> bool {
    forall|i: int, j: int| 0 <= i < j < offsets.len() ==> offsets[i] < offsets[j]
}

impl Trivia {
    /// No comments and no blank lines.
    pub open spec fn empty() -> Trivia {
        Trivia {
            comments: Seq::empty(),
            doc_comments: Seq::empty(),
            module_comments: Seq::empty(),
            empty_lines: Seq::empty(),
        }
    }

    /// Each of the four sequences goes strictly up by offset.
    pub open spec fn ordered(self) -> bool {
        &&& ascending(starts_of(self.comments))
        &&& ascending(starts_of(self.doc_comments))
        &&& ascending(starts_of(self.module_comments))
        &&& ascending(self.empty_lines)
    }

    /// Whether the next comment starts before `limit`.
    pub open spec fn any_comments(self, limit: u32) -> bool {
        self.comments.len() > 0 && self.comments[0].start < limit
    }

    /// What `pop_comments` hands out.
    pub open spec fn comments_upto(self, limit: u32) -> Seq<Option<Seq<char>>> {
        popped(self.comments, self.empty_lines, limit, true)
    }

    /// What `pop_comments` leaves.
    pub open spec fn after_comments(self, limit: u32) -> Trivia {
        Trivia {
            comments: self.comments.skip(reach(starts_of(self.comments), limit) as int),
            empty_lines: self.empty_lines.skip(reach(self.empty_lines, limit) as int),
            ..self
        }
    }

    /// What `pop_doc_comments` hands out.
    pub open spec fn doc_comments_upto(self, limit: u32) -> Seq<Option<Seq<char>>> {
        popped(self.doc_comments, self.empty_lines, limit, false)
    }

    /// What `pop_doc_comments` leaves.
    pub open spec fn after_doc_comments(self, limit: u32) -> Trivia {
        Trivia {
            doc_comments: self.doc_comments.skip(reach(starts_of(self.doc_comments), limit) as int),
            empty_lines: self.empty_lines.skip(reach(self.empty_lines, limit) as int),
            ..self
        }
    }

    /// Whether a blank line stands before the first one past `limit`.
    pub open spec fn blank_upto(self, limit: u32) -> bool {
        reach(self.empty_lines, limit) != 0
    }

    /// What `pop_empty_lines` leaves.
    pub open spec fn after_empty_lines(self, limit: u32) -> Trivia {
        Trivia { empty_lines: self.empty_lines.skip(reach(self.empty_lines, limit) as int), ..self }
    }
}

/// What lowering one construct gives: its document, and the trivia that are
/// left once those before it and inside it have been popped.
pub struct Lowered {
    pub doc: Doc,
    pub trivia: Trivia,
}

/// What lowering a list of constructs gives.
pub struct LoweredAll {
    pub docs: Seq<Doc>,
    pub trivia: Trivia,
}

/// The trivia of one module, as the parser found it.
#[derive(Debug)]
pub struct Intermediate<'a> {
    pub comments: Vec<Comment<'a>>,
    pub doc_comments: Vec<Comment<'a>>,
    pub module_comments: Vec<Comment<'a>>,
    pub empty_lines: &'a [u32],
}

impl<'a> View for Intermediate<'a> {
    type V = Trivia;

    open spec fn view(&self) -> Trivia {
        Trivia {
            comments: notes_of(self.comments@),
            doc_comments: notes_of(self.doc_comments@),
            module_comments: notes_of(self.module_comments@),
            empty_lines: self.empty_lines@,
        }
    }
}

/// The cursor over the trivia of one module.
#[derive(Debug)]
pub struct Formatter<'a> {
    comments: &'a [Comment<'a>],
    doc_comments: &'a [Comment<'a>],
    module_comments: &'a [Comment<'a>],
    empty_lines: &'a [u32],
}

impl<'a> View for Formatter<'a> {
    type V = Trivia;

    closed spec fn view(&self) -> Trivia {
        Trivia {
            comments: notes_of(self.comments@),
            doc_comments: notes_of(self.doc_comments@),
            module_comments: notes_of(self.module_comments@),
            empty_lines: self.empty_lines@,
        }
    }
}

/// An empty slice of comments.
fn no_comments<'a>() -> (r: &'a [Comment<'a>])
    ensures
        r@.len() == 0,
{
    let none: &'a [Comment<'a>; 0] = &[];
    assert(none@.len() == 0);
    none
}

/// An empty slice of blank lines.
fn no_lines<'a>() -> (r: &'a [u32])
    ensures
        r@.len() == 0,
{
    let none: &'a [u32; 0] = &[];
    assert(none@.len() == 0);
    none
}

impl<'a> Default for Formatter<'a> {
    fn default() -> (r: Self)
        ensures
            r@ == Trivia::empty(),
    {
        let r = Formatter {
            comments: no_comments(),
            doc_comments: no_comments(),
            module_comments: no_comments(),
            empty_lines: no_lines(),
        };
        assert(r@.comments =~= Seq::empty());
        assert(r@.doc_comments =~= Seq::empty());
        assert(r@.module_comments =~= Seq::empty());
        assert(r@.empty_lines =~= Seq::empty());
        r
    }
}

impl<'a> Clone for Formatter<'a> {
    fn clone(&self) -> (r: Self)
        ensures
            r@ == self@,
    {
        Formatter {
            comments: self.comments,
            doc_comments: self.doc_comments,
            module_comments: self.module_comments,
            empty_lines: self.empty_lines,
        }
    }
}

/// Skipping comments and taking their values is taking the values and
/// skipping.
proof fn notes_skip(comments: Seq<Comment<'_>>, n: int)
    requires
        0 <= n <= comments.len(),
    ensures
        notes_of(comments.skip(n)) == notes_of(comments).skip(n),
{
    assert(notes_of(comments.skip(n)) =~= notes_of(comments).skip(n));
}

impl<'a> Formatter<'a> {
    /// A cursor over no trivia at all.
    pub fn new() -> (r: Self)
        ensures
            r@ == Trivia::empty(),
            r@.ordered(),
    {
        Default::default()
    }

    /// A cursor at the start of the trivia in `extra`. It is in order if
    /// `extra` is.
    pub fn with_comments(extra: &'a Intermediate<'a>) -> (r: Self)
        ensures
            r@ == extra@,
    {
        Formatter {
            comments: extra.comments.as_slice(),
            doc_comments: extra.doc_comments.as_slice(),
            module_comments: extra.module_comments.as_slice(),
            empty_lines: extra.empty_lines,
        }
    }

    /// Whether the next comment starts before `limit`.
    pub fn any_comments(&self, limit: u32) -> (r: bool)
        ensures
            r == self@.any_comments(limit),
    {
        self.comments.len() > 0 && self.comments[0].start < limit
    }

    /// Pops the comments up to `limit`, with a `None` for each run of blank
    /// lines among them.
    pub fn pop_comments(&mut self, limit: u32) -> (r: Vec<Option<&'a str>>)
        ensures
            texts_of(r@) == old(self)@.comments_upto(limit),
            final(self)@ == old(self)@.after_comments(limit),
            old(self)@.ordered() ==> final(self)@.ordered(),
    {
        proof {
            if self@.ordered() {
                pops_keep_the_order(self@, limit);
            }
        }
        let (popped, rest, empty_lines) = comments_before(
            self.comments,
            self.empty_lines,
            limit,
            true,
        );
        proof {
            reach_is_bounded(starts_of(notes_of(self.comments@)), limit);
            notes_skip(self.comments@, reach(starts_of(notes_of(self.comments@)), limit) as int);
        }
        self.comments = rest;
        self.empty_lines = empty_lines;
        popped
    }

    /// Pops the doc comments up to `limit`, and the blank lines up to it
    /// without a trace.
    pub fn pop_doc_comments(&mut self, limit: u32) -> (r: Vec<Option<&'a str>>)
        ensures
            texts_of(r@) == old(self)@.doc_comments_upto(limit),
            final(self)@ == old(self)@.after_doc_comments(limit),
            old(self)@.ordered() ==> final(self)@.ordered(),
    {
        proof {
            if self@.ordered() {
                pops_keep_the_order(self@, limit);
            }
        }
        let (popped, rest, empty_lines) = comments_before(
            self.doc_comments,
            self.empty_lines,
            limit,
            false,
        );
        proof {
            reach_is_bounded(starts_of(notes_of(self.doc_comments@)), limit);
            notes_skip(
                self.doc_comments@,
                reach(starts_of(notes_of(self.doc_comments@)), limit) as int,
            );
        }
        self.doc_comments = rest;
        self.empty_lines = empty_lines;
        popped
    }

    /// Pops the blank lines up to `limit` and says whether there was one.
    pub fn pop_empty_lines(&mut self, limit: u32) -> (r: bool)
        ensures
            r == old(self)@.blank_upto(limit),
            final(self)@ == old(self)@.after_empty_lines(limit),
            old(self)@.ordered() ==> final(self)@.ordered(),
    {
        proof {
            if self@.ordered() {
                pops_keep_the_order(self@, limit);
            }
        }
        let end = lines_reach(self.empty_lines, limit);
        self.empty_lines = slice_subrange(self.empty_lines, end, self.empty_lines.len());
        end != 0
    }

    /// The doc comments not popped yet.
    pub fn remaining_doc_comments(&self) -> (r: &'a [Comment<'a>])
        ensures
            notes_of(r@) == self@.doc_comments,
    {
        self.doc_comments
    }

    /// The module comments.
    pub fn remaining_module_comments(&self) -> (r: &'a [Comment<'a>])
        ensures
            notes_of(r@) == self@.module_comments,
    {
        self.module_comments
    }
}

/// Adds a document to a list of documents.
pub fn push_doc<'a>(docs: &mut Vec<Document<'a>>, doc: Document<'a>)
    ensures
        docs_of(final(docs)@) == docs_of(old(docs)@).push(doc@),
{
    docs.push(doc);
    assert(docs_of(docs@) =~= docs_of(old(docs)@).push(doc@));
}

/// Adds a list of documents to a list of documents.
pub fn append_docs<'a>(docs: &mut Vec<Document<'a>>, more: Vec<Document<'a>>)
    ensures
        docs_of(final(docs)@) == docs_of(old(docs)@) + docs_of(more@),
{
    let ghost added = docs_of(more@);
    let mut more = more;
    docs.append(&mut more);
    assert(docs_of(docs@) =~= docs_of(old(docs)@) + added);
}

/// One comment as it is printed.
pub open spec fn comment_doc(text: Seq<char>) -> Doc {
    Doc::text("//"@).append(Doc::string(text))
}

/// The documents of a popped run from index `i` on: each comment, a line break
/// between two comments, a blank line where a `None` lies between them; after
/// the last comment a line break (a blank line where a `None` follows it) if
/// `trailing_newline`, and nothing otherwise.
pub open spec fn printed_from(
    comments: Seq<Option<Seq<char>>>,
    i: int,
    trailing_newline: bool,
) -> Seq<Doc>
    decreases comments.len() - i,
{
    if i < 0 || i >= comments.len() {
        Seq::empty()
    } else {
        match comments[i] {
            None => printed_from(comments, i + 1, trailing_newline),
            Some(text) => {
                let head = seq![comment_doc(text)];
                if i + 1 >= comments.len() {
                    if trailing_newline {
                        head.push(Doc::line())
                    } else {
                        head
                    }
                } else if comments[i + 1] is Some {
                    head.push(Doc::line()) + printed_from(comments, i + 1, trailing_newline)
                } else if i + 2 < comments.len() {
                    head.push(Doc::lines(2)) + printed_from(comments, i + 2, trailing_newline)
                } else if trailing_newline {
                    head.push(Doc::lines(2))
                } else {
                    head
                }
            },
        }
    }
}

/// A popped run as one document, or nothing where nothing was popped.
pub open spec fn printed(comments: Seq<Option<Seq<char>>>, trailing_newline: bool) -> Option<Doc> {
    if comments.len() == 0 {
        None
    } else {
        let doc = Doc::concat(printed_from(comments, 0, trailing_newline));
        Some(
            if trailing_newline {
                doc.force_break()
            } else {
                doc
            },
        )
    }
}

/// Whether a popped run ends with a comment and a blank-line marker after it.
pub open spec fn ends_blank(comments: Seq<Option<Seq<char>>>) -> bool {
    comments.len() >= 2 && comments[comments.len() - 1] is None && comments[comments.len() - 2]
        is Some
}

/// A popped run at the end of a module, or nothing where nothing was popped:
/// the comments without a line break after the last of them, and a blank
/// line after it where one followed it in the source.
pub open spec fn printed_at_end(comments: Seq<Option<Seq<char>>>) -> Option<Doc> {
    match printed(comments, false) {
        Some(doc) => Some(
            if ends_blank(comments) {
                doc.append(Doc::lines(2))
            } else {
                doc
            },
        ),
        None => None,
    }
}

/// `doc` under the comments that were popped before it.
pub open spec fn commented_doc(doc: Doc, comments: Seq<Option<Seq<char>>>) -> Doc {
    match printed(comments, true) {
        Some(above) => above.append(doc.group()),
        None => doc,
    }
}

/// The model of a document that may be missing.
pub open spec fn option_doc_of(d: Option<Document<'_>>) -> Option<Doc> {
    match d {
        Some(d) => Some(d@),
        None => None,
    }
}

/// Prints a popped run of comments.
pub fn printed_comments<'a>(comments: &Vec<Option<&str>>, trailing_newline: bool) -> (r: Option<
    Document<'a>,
>)
    ensures
        option_doc_of(r) == printed(texts_of(comments@), trailing_newline),
{
    if comments.len() == 0 {
        return None;
    }
    let ghost c = texts_of(comments@);
    let n = comments.len();
    let mut docs: Vec<Document<'a>> = Vec::new();
    let mut i: usize = 0;
    assert(docs_of(docs@) =~= Seq::<Doc>::empty());
    while i < n
        invariant
            i <= n,
            n == comments@.len(),
            c == texts_of(comments@),
            docs_of(docs@) + printed_from(c, i as int, trailing_newline) == printed_from(
                c,
                0,
                trailing_newline,
            ),
        decreases n - i,
    {
        let ghost done = docs_of(docs@);
        match comments[i] {
            None => {
                i += 1;
            },
            Some(t) => {
                push_doc(&mut docs, text("//").append(Document::String(String::from_str(t))));
                assert(docs_of(docs@) == done.push(comment_doc(t@)));
                if i + 1 >= n {
                    if trailing_newline {
                        push_doc(&mut docs, line());
                    }
                    i += 1;
                } else if comments[i + 1].is_some() {
                    push_doc(&mut docs, line());
                    i += 1;
                } else if i + 2 < n {
                    push_doc(&mut docs, lines(2));
                    i += 2;
                } else {
                    if trailing_newline {
                        push_doc(&mut docs, lines(2));
                    }
                    i += 2;
                }
            },
        }
    }
    assert(docs_of(docs@) == printed_from(c, 0, trailing_newline));
    let doc = concat(docs);
    if trailing_newline {
        Some(doc.force_break())
    } else {
        Some(doc)
    }
}

/// Prints the run of comments that is popped at the end of a module.
pub fn printed_comments_at_end<'a>(comments: &Vec<Option<&str>>) -> (r: Option<Document<'a>>)
    ensures
        option_doc_of(r) == printed_at_end(texts_of(comments@)),
{
    let n = comments.len();
    let blank = n >= 2 && comments[n - 1].is_none() && comments[n - 2].is_some();
    match printed_comments(comments, false) {
        Some(doc) => if blank {
            Some(doc.append(lines(2)))
        } else {
            Some(doc)
        },
        None => None,
    }
}

/// `doc` under the comments popped before it, if there were any.
pub fn commented<'a>(doc: Document<'a>, comments: &Vec<Option<&str>>) -> (r: Document<'a>)
    ensures
        r@ == commented_doc(doc@, texts_of(comments@)),
{
    match printed_comments(comments, true) {
        Some(above) => above.append(doc.group()),
        None => doc,
    }
}

/// In an ascending sequence `reach` splits at the limit: every offset before
/// the split is at most `limit`, every offset from the split on is greater.
pub proof fn reach_splits_at_the_limit(offsets: Seq<u32>, limit: u32)
    requires
        ascending(offsets),
    ensures
        reach(offsets, limit) <= offsets.len(),
        forall|i: int| 0 <= i < reach(offsets, limit) ==> offsets[i] <= limit,
        forall|i: int| reach(offsets, limit) <= i < offsets.len() ==> offsets[i] > limit,
    decreases offsets.len(),
{
    if offsets.len() != 0 && offsets[0] <= limit {
        let rest = offsets.drop_first();
        assert(ascending(rest)) by {
            assert forall|i: int, j: int| 0 <= i < j < rest.len() implies rest[i] < rest[j] by {
                assert(offsets[i + 1] < offsets[j + 1]);
            }
        }
        reach_splits_at_the_limit(rest, limit);
        assert forall|i: int| 0 <= i < reach(offsets, limit) implies offsets[i] <= limit by {
            if i > 0 {
                assert(rest[i - 1] == offsets[i]);
            }
        }
        assert forall|i: int| reach(offsets, limit) <= i < offsets.len() implies offsets[i]
            > limit by {
            assert(rest[i - 1] == offsets[i]);
        }
    }
}

/// Where the first offset is past the limit, nothing is within reach.
proof fn nothing_within_reach(offsets: Seq<u32>, limit: u32)
    requires
        forall|i: int| 0 <= i < offsets.len() ==> offsets[i] > limit,
    ensures
        reach(offsets, limit) == 0,
{
}

/// What is left of an ascending sequence after a pop lies past the limit of
/// the pop, and is ascending.
proof fn rest_is_past_the_limit(offsets: Seq<u32>, limit: u32)
    requires
        ascending(offsets),
    ensures
        ascending(offsets.skip(reach(offsets, limit) as int)),
        forall|i: int|
            0 <= i < offsets.skip(reach(offsets, limit) as int).len() ==> offsets.skip(
                reach(offsets, limit) as int,
            )[i] > limit,
{
    reach_splits_at_the_limit(offsets, limit);
}

/// Skipping comments and taking their starts is taking the starts and
/// skipping.
proof fn starts_skip(notes: Seq<Note>, n: int)
    requires
        0 <= n <= notes.len(),
    ensures
        starts_of(notes.skip(n)) == starts_of(notes).skip(n),
{
    assert(starts_of(notes.skip(n)) =~= starts_of(notes).skip(n));
}

/// Popping keeps the trivia in order.
pub proof fn pops_keep_the_order(t: Trivia, limit: u32)
    requires
        t.ordered(),
    ensures
        t.after_comments(limit).ordered(),
        t.after_doc_comments(limit).ordered(),
        t.after_empty_lines(limit).ordered(),
{
    reach_is_bounded(starts_of(t.comments), limit);
    reach_is_bounded(starts_of(t.doc_comments), limit);
    starts_skip(t.comments, reach(starts_of(t.comments), limit) as int);
    starts_skip(t.doc_comments, reach(starts_of(t.doc_comments), limit) as int);
    rest_is_past_the_limit(starts_of(t.comments), limit);
    rest_is_past_the_limit(starts_of(t.doc_comments), limit);
    rest_is_past_the_limit(t.empty_lines, limit);
}

/// Popping is spent: after a pop up to `limit`, a pop of the same kind up to
/// `limit` or less hands out nothing and finds no blank line.
pub proof fn a_second_pop_gives_nothing(t: Trivia, limit: u32, again: u32)
    requires
        t.ordered(),
        again <= limit,
    ensures
        t.after_comments(limit).comments_upto(again).len() == 0,
        t.after_doc_comments(limit).doc_comments_upto(again).len() == 0,
        !t.after_empty_lines(limit).blank_upto(again),
        !t.after_comments(limit).blank_upto(again),
        !t.after_doc_comments(limit).blank_upto(again),
{
    reach_is_bounded(starts_of(t.comments), limit);
    reach_is_bounded(starts_of(t.doc_comments), limit);
    starts_skip(t.comments, reach(starts_of(t.comments), limit) as int);
    starts_skip(t.doc_comments, reach(starts_of(t.doc_comments), limit) as int);
    rest_is_past_the_limit(starts_of(t.comments), limit);
    rest_is_past_the_limit(starts_of(t.doc_comments), limit);
    rest_is_past_the_limit(t.empty_lines, limit);
    let lines = t.empty_lines.skip(reach(t.empty_lines, limit) as int);
    nothing_within_reach(lines, again);
    let comments = t.after_comments(limit).comments;
    nothing_within_reach(starts_of(comments), again);
    let docs = t.after_doc_comments(limit).doc_comments;
    nothing_within_reach(starts_of(docs), again);
    assert(comments.take(0) =~= Seq::<Note>::empty());
    assert(docs.take(0) =~= Seq::<Note>::empty());
    assert(lines.take(0) =~= Seq::<u32>::empty());
    assert(comment_marks(Seq::<Note>::empty()) =~= Seq::<Mark>::empty());
    assert(single_runs(Seq::<u32>::empty()) =~= Seq::<Run>::empty());
    assert(blank_marks(Seq::<Run>::empty()) =~= Seq::<Mark>::empty());
    assert(payloads(Seq::<Mark>::empty()) =~= Seq::<Option<Seq<char>>>::empty());
}

/// What is left without its leading blanks starts with a comment.
proof fn no_leading_blank(marks: Seq<Mark>)
    ensures
        without_leading_blanks(marks).len() > 0 ==> without_leading_blanks(marks)[0].1 is Some,
    decreases marks.len(),
{
    if marks.len() > 0 && marks[0].1 is None {
        no_leading_blank(marks.drop_first());
    }
}

/// What is popped never starts with a blank line.
pub proof fn popped_starts_with_a_comment(
    notes: Seq<Note>,
    lines: Seq<u32>,
    limit: u32,
    retain: bool,
)
    ensures
        popped(notes, lines, limit, retain).len() > 0 ==> popped(notes, lines, limit, retain)[0]
            is Some,
{
    let taken = notes.take(reach(starts_of(notes), limit) as int);
    let blanks = if retain {
        coalesced(single_runs(lines.take(reach(lines, limit) as int)))
    } else {
        Seq::empty()
    };
    no_leading_blank(merged(comment_marks(taken), blank_marks(blanks)));
}

/// Whether a document is a line break with at most one blank line.
pub open spec fn is_separator(doc: Doc) -> bool {
    doc == Doc::line() || doc == Doc::lines(2)
}

/// Whether a document is a printed comment.
pub open spec fn is_comment(doc: Doc) -> bool {
    exists|text: Seq<char>| doc == comment_doc(text)
}

/// Whether comments and separators take turns in `docs`, a comment first.
pub open spec fn alternating(docs: Seq<Doc>) -> bool {
    forall|j: int|
        0 <= j < docs.len() ==> if j % 2 == 0 {
            is_comment(#[trigger] docs[j])
        } else {
            is_separator(docs[j])
        }
}

/// However many blank lines lie between two comments of a run, one blank
/// line at most is printed between them: in what is printed, comments and
/// line breaks take turns, and no line break holds more than one blank line.
pub proof fn blank_lines_collapse(comments: Seq<Option<Seq<char>>>, i: int, trailing_newline: bool)
    requires
        0 <= i,
    ensures
        alternating(printed_from(comments, i, trailing_newline)),
        printed_from(comments, i, trailing_newline).len() % 2 == 1 ==> !trailing_newline,
    decreases comments.len() - i,
{
    if i < comments.len() {
        match comments[i] {
            None => {
                blank_lines_collapse(comments, i + 1, trailing_newline);
            },
            Some(text) => {
                let head = seq![comment_doc(text)];
                assert(is_comment(head[0]));
                let all = printed_from(comments, i, trailing_newline);
                if i + 1 >= comments.len() {
                } else if comments[i + 1] is Some {
                    blank_lines_collapse(comments, i + 1, trailing_newline);
                    let rest = printed_from(comments, i + 1, trailing_newline);
                    assert forall|j: int| 0 <= j < all.len() implies if j % 2 == 0 {
                        is_comment(#[trigger] all[j])
                    } else {
                        is_separator(all[j])
                    } by {
                        if j >= 2 {
                            assert(all[j] == rest[j - 2]);
                        }
                    }
                } else if i + 2 < comments.len() {
                    blank_lines_collapse(comments, i + 2, trailing_newline);
                    let rest = printed_from(comments, i + 2, trailing_newline);
                    assert forall|j: int| 0 <= j < all.len() implies if j % 2 == 0 {
                        is_comment(#[trigger] all[j])
                    } else {
                        is_separator(all[j])
                    } by {
                        if j >= 2 {
                            assert(all[j] == rest[j - 2]);
                        }
                    }
                } else {
                }
            },
        }
    }
}

/// A run that ends with a comment and a marker is printed, without a line
/// break asked for at its end, up to that comment.
proof fn a_run_is_printed_up_to_its_last_comment(comments: Seq<Option<Seq<char>>>, i: int)
    requires
        ends_blank(comments),
        0 <= i <= comments.len() - 2,
    ensures
        printed_from(comments, i, false).len() > 0,
        printed_from(comments, i, false).last() == comment_doc(comments[comments.len() - 2]->0),
    decreases comments.len() - i,
{
    match comments[i] {
        None => {
            a_run_is_printed_up_to_its_last_comment(comments, i + 1);
        },
        Some(text) => {
            if comments[i + 1] is Some {
                a_run_is_printed_up_to_its_last_comment(comments, i + 1);
            } else if i + 2 < comments.len() {
                a_run_is_printed_up_to_its_last_comment(comments, i + 2);
            }
        },
    }
}

/// At the end of a module the blank line after the last comment is kept:
/// where the run that is popped there ends with a comment and a marker, what
/// is printed ends with that comment and one blank line after it.
pub proof fn the_last_blank_line_of_a_module_is_kept(comments: Seq<Option<Seq<char>>>)
    requires
        ends_blank(comments),
    ensures
        printed_at_end(comments) == Some(
            Doc::concat(printed_from(comments, 0, false)).append(Doc::lines(2)),
        ),
        printed_from(comments, 0, false).len() > 0,
        printed_from(comments, 0, false).last() == comment_doc(comments[comments.len() - 2]->0),
{
    a_run_is_printed_up_to_its_last_comment(comments, 0);
}

/// A run that does not end with a comment and a marker is printed at the end
/// of a module as it is elsewhere without a line break at its end.
pub proof fn other_runs_end_a_module_as_they_are(comments: Seq<Option<Seq<char>>>)
    requires
        !ends_blank(comments),
    ensures
        printed_at_end(comments) == printed(comments, false),
{
}

} // verus!
