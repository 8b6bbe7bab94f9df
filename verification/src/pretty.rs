//! The document algebra and its layout engine.
//!
//! A [`Document`] says what to print without fixing where lines end. The
//! renderer walks the tree once and decides, group by group, whether the group
//! still fits on the current line. The mathematical model of a document is
//! [`Doc`]; the meaning of rendering is the spec function [`render_text`].

use ecow::EcoString;
use vstd::prelude::*;
use vstd::string::*;

verus! {

/// `EcoString` of the ecow crate: a string that is cheap to clone. Nothing
/// of its inside is known here; what it holds goes by the name `eco_text`.
#[verifier::external_type_specification]
#[verifier::external_body]
pub struct ExEcoString(EcoString);

/// The characters that an `EcoString` of the ecow crate holds, in their
/// order: what `EcoString::as_str` shows.
pub uninterp spec fn eco_text(s: EcoString) -> Seq<char>;

/// Columns by which one level of nesting indents.
pub const INDENT: usize = 2;

/// How the breaks of the enclosing group are printed.
#[derive(Clone, Copy, Debug, PartialEq, Eq)]
pub enum Mode {
    /// Every strict break ends the line.
    Broken,
    /// Every strict break prints its flat text.
    Unbroken,
}

/// The two kinds of conditional break.
#[derive(Clone, Copy, Debug, PartialEq, Eq)]
pub enum BreakKind {
    /// Follows the decision of the enclosing group.
    Strict,
    /// Stays flat for as long as what follows still fits on the line.
    Flex,
}

/// A printable document.
#[derive(Debug, PartialEq, Eq)]
pub enum Document<'a> {
    /// Prints nothing.
    Nil,
    /// That many newlines, then the current indentation.
    Line(usize),
    /// Borrowed text.
    Str(&'a str),
    /// An owned text buffer: text that comes from no syntax tree, such as the
    /// text of a comment.
    String(String),
    /// Shared text: text that was computed, such as a canonical literal.
    EcoString(EcoString),
    /// `unbroken` when flat; `broken`, a newline and the indentation otherwise.
    Break { broken: &'a str, unbroken: &'a str, kind: BreakKind },
    /// The first document followed by the second.
    Cons(Box<Document<'a>>, Box<Document<'a>>),
    /// The document with its indentation increased.
    Nest(usize, Box<Document<'a>>),
    /// A document whose strict breaks are all flat or all broken.
    Group(Box<Document<'a>>),
    /// A document whose strict breaks are broken, in a group that never fits.
    ForceBreak(Box<Document<'a>>),
}

/// The mathematical model of a [`Document`].
pub enum Doc {
    Nil,
    Line(nat),
    /// Borrowed or shared text.
    Text(Seq<char>),
    /// An owned text buffer.
    String(Seq<char>),
    Break { broken: Seq<char>, unbroken: Seq<char>, flex: bool },
    Cons(Box<Doc>, Box<Doc>),
    Nest(nat, Box<Doc>),
    Group(Box<Doc>),
    ForceBreak(Box<Doc>),
}

/// The model of a document.
pub open spec fn doc_of(d: &Document<'_>) -> Doc
    decreases d,
{
    match d {
        Document::Nil => Doc::Nil,
        Document::Line(n) => Doc::Line(*n as nat),
        Document::Str(s) => Doc::Text(s@),
        Document::String(s) => Doc::String(s@),
        Document::EcoString(s) => Doc::Text(eco_text(*s)),
        Document::Break { broken, unbroken, kind } => Doc::Break {
            broken: broken@,
            unbroken: unbroken@,
            flex: kind is Flex,
        },
        Document::Cons(a, b) => Doc::Cons(Box::new(doc_of(a)), Box::new(doc_of(b))),
        Document::Nest(n, d) => Doc::Nest(*n as nat, Box::new(doc_of(d))),
        Document::Group(d) => Doc::Group(Box::new(doc_of(d))),
        Document::ForceBreak(d) => Doc::ForceBreak(Box::new(doc_of(d))),
    }
}

impl<'a> View for Document<'a> {
    type V = Doc;

    open spec fn view(&self) -> Doc {
        doc_of(self)
    }
}

/// The models of a sequence of documents.
pub open spec fn docs_of(s: Seq<Document<'_>>) -> Seq<Doc> {
    Seq::new(s.len(), |i: int| s[i]@)
}

/// `sep` between every two neighbours of `s`.
pub open spec fn interspersed<T>(s: Seq<T>, sep: T) -> Seq<T>
    decreases s.len(),
{
    if s.len() <= 1 {
        s
    } else {
        interspersed(s.drop_last(), sep).push(sep).push(s.last())
    }
}

impl Doc {
    /// Borrowed or shared text.
    pub open spec fn text(s: Seq<char>) -> Doc {
        Doc::Text(s)
    }

    /// Text in a buffer of its own.
    pub open spec fn string(s: Seq<char>) -> Doc {
        Doc::String(s)
    }

    /// One line break.
    pub open spec fn line() -> Doc {
        Doc::Line(1)
    }

    /// `n` line breaks.
    pub open spec fn lines(n: nat) -> Doc {
        Doc::Line(n)
    }

    /// A break that follows the mode of its group.
    pub open spec fn break_(broken: Seq<char>, unbroken: Seq<char>) -> Doc {
        Doc::Break { broken, unbroken, flex: false }
    }

    /// A break that is decided on its own.
    pub open spec fn flex_break(broken: Seq<char>, unbroken: Seq<char>) -> Doc {
        Doc::Break { broken, unbroken, flex: true }
    }

    /// `self`, then `other`.
    pub open spec fn append(self, other: Doc) -> Doc {
        Doc::Cons(Box::new(self), Box::new(other))
    }

    /// `self`, indented by `n` more columns.
    pub open spec fn nest(self, n: nat) -> Doc {
        Doc::Nest(n, Box::new(self))
    }

    /// `self` as a group: flat if it fits, broken if not.
    pub open spec fn group(self) -> Doc {
        Doc::Group(Box::new(self))
    }

    /// `self`, with the groups around it broken.
    pub open spec fn force_break(self) -> Doc {
        Doc::ForceBreak(Box::new(self))
    }

    /// `self` between `open` and `closed`.
    pub open spec fn surround(self, open: Seq<char>, closed: Seq<char>) -> Doc {
        Doc::text(open).append(self).append(Doc::text(closed))
    }

    /// The documents of `s` one after the other, as a tree of even depth:
    /// the first half of them followed by the second.
    pub open spec fn concat(s: Seq<Doc>) -> Doc
        decreases s.len(),
    {
        if s.len() == 0 {
            Doc::Nil
        } else if s.len() == 1 {
            s[0]
        } else {
            let half = s.len() as int / 2;
            Doc::concat(s.take(half)).append(Doc::concat(s.skip(half)))
        }
    }

    /// The documents of `s` with `sep` between every two of them.
    pub open spec fn join(s: Seq<Doc>, sep: Doc) -> Doc {
        Doc::concat(interspersed(s, sep))
    }

    /// Whether the document holds no text and no line break. A break is
    /// judged by its broken text alone.
    pub open spec fn is_empty(self) -> bool
        decreases self,
    {
        match self {
            Doc::Nil => true,
            Doc::Line(n) => n == 0,
            Doc::Text(s) => s.len() == 0,
            Doc::String(s) => s.len() == 0,
            Doc::Break { broken, .. } => broken.len() == 0,
            Doc::Cons(a, b) => a.is_empty() && b.is_empty(),
            Doc::Nest(_, d) => d.is_empty(),
            Doc::Group(d) => d.is_empty(),
            Doc::ForceBreak(d) => d.is_empty(),
        }
    }
}

/// The empty document.
pub fn nil<'a>() -> (r: Document<'a>)
    ensures
        r@ == Doc::Nil,
{
    Document::Nil
}

/// A mandatory line break.
pub fn line<'a>() -> (r: Document<'a>)
    ensures
        r@ == Doc::line(),
{
    Document::Line(1)
}

/// `n` mandatory line breaks: `n - 1` blank lines.
pub fn lines<'a>(n: usize) -> (r: Document<'a>)
    ensures
        r@ == Doc::lines(n as nat),
{
    Document::Line(n)
}

/// Borrowed text as a document.
pub fn text<'a>(s: &'a str) -> (r: Document<'a>)
    ensures
        r@ == Doc::text(s@),
{
    Document::Str(s)
}

/// A break that follows its group.
pub fn break_<'a>(broken: &'a str, unbroken: &'a str) -> (r: Document<'a>)
    ensures
        r@ == Doc::break_(broken@, unbroken@),
{
    Document::Break { broken, unbroken, kind: BreakKind::Strict }
}

/// A break that stays flat while the line still has room.
pub fn flex_break<'a>(broken: &'a str, unbroken: &'a str) -> (r: Document<'a>)
    ensures
        r@ == Doc::flex_break(broken@, unbroken@),
{
    Document::Break { broken, unbroken, kind: BreakKind::Flex }
}

/// Calls `EcoString::as_str` of the ecow crate: the text of the string as a
/// slice.
#[verifier::external_body]
fn eco_str(s: &EcoString) -> (r: &str)
    ensures
        r@ == eco_text(*s),
{
    s.as_str()
}

/// Calls `clone` on a string of the ecow crate: a string of the same text.
#[verifier::external_body]
fn eco_clone(s: &EcoString) -> (r: EcoString)
    ensures
        eco_text(r) == eco_text(*s),
{
    s.clone()
}

impl<'a> Clone for Document<'a> {
    fn clone(&self) -> (r: Self)
        ensures
            r@ == self@,
    {
        self.duplicate()
    }
}

impl<'a> Document<'a> {
    /// A copy of the document.
    pub fn duplicate(&self) -> (r: Document<'a>)
        ensures
            r@ == self@,
        decreases self,
    {
        match self {
            Document::Nil => Document::Nil,
            Document::Line(n) => Document::Line(*n),
            Document::Str(s) => Document::Str(*s),
            Document::String(s) => Document::String(s.clone()),
            Document::EcoString(s) => Document::EcoString(eco_clone(s)),
            Document::Break { broken, unbroken, kind } => Document::Break {
                broken: *broken,
                unbroken: *unbroken,
                kind: *kind,
            },
            Document::Cons(a, b) => Document::Cons(
                Box::new(a.duplicate()),
                Box::new(b.duplicate()),
            ),
            Document::Nest(n, d) => Document::Nest(*n, Box::new(d.duplicate())),
            Document::Group(d) => Document::Group(Box::new(d.duplicate())),
            Document::ForceBreak(d) => Document::ForceBreak(Box::new(d.duplicate())),
        }
    }

    /// `self` followed by `other`.
    pub fn append(self, other: Document<'a>) -> (r: Document<'a>)
        ensures
            r@ == self@.append(other@),
    {
        Document::Cons(Box::new(self), Box::new(other))
    }

    /// `self` with `n` more columns of indentation after each of its newlines.
    pub fn nest(self, n: usize) -> (r: Document<'a>)
        ensures
            r@ == self@.nest(n as nat),
    {
        Document::Nest(n, Box::new(self))
    }

    /// `self` as one group.
    pub fn group(self) -> (r: Document<'a>)
        ensures
            r@ == self@.group(),
    {
        Document::Group(Box::new(self))
    }

    /// `self` with its breaks forced.
    pub fn force_break(self) -> (r: Document<'a>)
        ensures
            r@ == self@.force_break(),
    {
        Document::ForceBreak(Box::new(self))
    }

    /// `self` between two pieces of text.
    pub fn surround(self, open: &'a str, closed: &'a str) -> (r: Document<'a>)
        ensures
            r@ == self@.surround(open@, closed@),
    {
        text(open).append(self).append(text(closed))
    }

    /// Whether the document holds no text and no line break. A break is
    /// judged by its broken text alone.
    pub fn is_empty(&self) -> (r: bool)
        ensures
            r == self@.is_empty(),
        decreases self,
    {
        match self {
            Document::Nil => true,
            Document::Line(n) => *n == 0,
            Document::Str(s) => s.unicode_len() == 0,
            Document::String(s) => s.as_str().unicode_len() == 0,
            Document::EcoString(s) => eco_str(s).unicode_len() == 0,
            Document::Break { broken, .. } => broken.unicode_len() == 0,
            Document::Cons(a, b) => a.is_empty() && b.is_empty(),
            Document::Nest(_, d) => d.is_empty(),
            Document::Group(d) => d.is_empty(),
            Document::ForceBreak(d) => d.is_empty(),
        }
    }
}

/// The last `count` documents of `docs` one after the other; they are taken
/// out of `docs`.
fn gather<'a>(docs: &mut Vec<Document<'a>>, count: usize) -> (r: Document<'a>)
    requires
        count <= old(docs)@.len(),
    ensures
        final(docs)@ == old(docs)@.take(old(docs)@.len() - count),
        r@ == Doc::concat(docs_of(old(docs)@).skip(old(docs)@.len() - count)),
    decreases count,
{
    let ghost all = docs_of(docs@);
    let ghost start = docs@.len() - count;
    let ghost part = all.skip(start);
    if count == 0 {
        assert(docs@.take(docs@.len() as int) == docs@);
        Document::Nil
    } else if count == 1 {
        let last = docs.pop().unwrap();
        assert(part[0] == last@);
        last
    } else {
        let half = count / 2;
        let right = gather(docs, count - half);
        let ghost rest = docs@;
        let left = gather(docs, half);
        proof {
            assert(docs_of(old(docs)@).skip(start + half) == part.skip(half as int));
            assert(docs_of(rest).skip(start) == part.take(half as int));
            assert(docs@ == old(docs)@.take(start));
        }
        left.append(right)
    }
}

/// The documents of `docs` one after the other.
pub fn concat<'a>(docs: Vec<Document<'a>>) -> (r: Document<'a>)
    ensures
        r@ == Doc::concat(docs_of(docs@)),
{
    let mut docs = docs;
    let count = docs.len();
    assert(docs_of(docs@).skip(0) == docs_of(docs@));
    gather(&mut docs, count)
}

/// Calls `Itertools::intersperse` of the itertools crate on the documents and
/// collects what it yields: the documents in their order, with a clone of
/// `separator` between every two neighbours, and nothing before the first or
/// after the last.
#[verifier::external_body]
pub(crate) fn intersperse<'a>(docs: Vec<Document<'a>>, separator: Document<'a>) -> (r: Vec<
    Document<'a>,
>)
    ensures
        docs_of(r@) == interspersed(docs_of(docs@), separator@),
{
    itertools::Itertools::intersperse(docs.into_iter(), separator).collect()
}

/// The documents of `docs` with `separator` between every two of them.
pub fn join<'a>(docs: Vec<Document<'a>>, separator: Document<'a>) -> (r: Document<'a>)
    ensures
        r@ == Doc::join(docs_of(docs@), separator@),
{
    concat(intersperse(docs, separator))
}

/// What a fit check has found after one document.
pub enum Fit {
    /// The line ends here, within the limit.
    Fits,
    /// The limit is exceeded, or a forced break was met.
    Overflows,
    /// Still on the line, at this column.
    Open(int),
}

/// A document that waits to be printed after the current one, with the mode
/// it will be printed in.
pub struct Pending {
    pub mode: Mode,
    pub doc: Doc,
}

/// The result of printing a document: what was written, and the column after it.
pub struct Layout {
    pub text: Seq<char>,
    pub width: int,
}

/// `Open` at `width` if that is still within `limit`.
pub open spec fn grow(limit: int, width: int) -> Fit {
    if width > limit {
        Fit::Overflows
    } else {
        Fit::Open(width)
    }
}

/// What text adds to the line: its length, unless it holds a newline. Text
/// with a newline in it fits on no line, so that the group around it breaks.
pub open spec fn fit_text(limit: int, width: int, s: Seq<char>) -> Fit {
    if s.contains('\n') {
        Fit::Overflows
    } else {
        grow(limit, width + s.len())
    }
}

/// Follows `doc` along the current line, starting at column `width`, all
/// groups flat: does the line end, by a newline or a broken break, before it
/// passes `limit`? A forced break and text that holds a newline fit on no
/// line.
pub open spec fn fit_doc(limit: int, width: int, mode: Mode, doc: Doc) -> Fit
    decreases doc,
{
    match doc {
        Doc::Nil => Fit::Open(width),
        Doc::Line(_) => Fit::Fits,
        Doc::ForceBreak(_) => Fit::Overflows,
        Doc::Text(s) => fit_text(limit, width, s),
        Doc::String(s) => fit_text(limit, width, s),
        Doc::Break { unbroken, .. } => match mode {
            Mode::Broken => Fit::Fits,
            Mode::Unbroken => grow(limit, width + unbroken.len()),
        },
        Doc::Nest(_, d) => fit_doc(limit, width, mode, *d),
        Doc::Group(d) => fit_doc(limit, width, Mode::Unbroken, *d),
        Doc::Cons(a, b) => match fit_doc(limit, width, mode, *a) {
            Fit::Open(w) => fit_doc(limit, w, mode, *b),
            other => other,
        },
    }
}

/// The fit check over the documents that wait, the last of `pending` first.
/// Reaching the end of them within the limit is a fit.
pub open spec fn fit_pending(limit: int, width: int, pending: Seq<Pending>) -> bool
    decreases pending.len(),
{
    if pending.len() == 0 {
        true
    } else {
        match fit_doc(limit, width, pending.last().mode, pending.last().doc) {
            Fit::Fits => true,
            Fit::Overflows => false,
            Fit::Open(w) => fit_pending(limit, w, pending.drop_last()),
        }
    }
}

/// Whether a group with content `doc` stays flat at column `width`.
pub open spec fn group_fits(limit: int, width: int, doc: Doc) -> bool {
    width <= limit && !(fit_doc(limit, width, Mode::Unbroken, doc) is Overflows)
}

/// Whether a flex break stays flat: its flat text ends at column `width`, and
/// what waits after it still fits.
pub open spec fn flex_fits(limit: int, width: int, pending: Seq<Pending>) -> bool {
    width <= limit && fit_pending(limit, width, pending)
}

/// Indentation after one more level of nesting. It stops growing at the
/// largest machine integer.
pub open spec fn next_indent(indent: nat, n: nat) -> nat {
    if indent + n > usize::MAX {
        usize::MAX as nat
    } else {
        indent + n
    }
}

/// `n` copies of `c`.
pub open spec fn repeated(c: char, n: nat) -> Seq<char> {
    Seq::new(n, |i: int| c)
}

/// `n` newlines followed by `indent` spaces.
pub open spec fn line_start(n: nat, indent: nat) -> Seq<char> {
    repeated('\n', n) + repeated(' ', indent)
}

/// The meaning of printing `doc` at column `width` with indentation `indent`,
/// in a group resolved to `mode`, with `pending` still to come on the line.
pub open spec fn layout(
    limit: int,
    width: int,
    indent: nat,
    mode: Mode,
    doc: Doc,
    pending: Seq<Pending>,
) -> Layout
    decreases doc,
{
    match doc {
        Doc::Nil => Layout { text: Seq::empty(), width },
        Doc::Line(n) => Layout { text: line_start(n, indent), width: indent as int },
        Doc::Text(s) => Layout { text: s, width: width + s.len() },
        Doc::String(s) => Layout { text: s, width: width + s.len() },
        Doc::Break { broken, unbroken, flex } => {
            let flat = if flex {
                flex_fits(limit, width + unbroken.len(), pending)
            } else {
                mode is Unbroken
            };
            if flat {
                Layout { text: unbroken, width: width + unbroken.len() }
            } else {
                Layout { text: broken + line_start(1, indent), width: indent as int }
            }
        },
        Doc::Cons(a, b) => {
            let first = layout(limit, width, indent, mode, *a, pending.push(Pending { mode, doc: *b }));
            let second = layout(limit, first.width, indent, mode, *b, pending);
            Layout { text: first.text + second.text, width: second.width }
        },
        Doc::Nest(n, d) => layout(limit, width, next_indent(indent, n), mode, *d, pending),
        Doc::Group(d) => {
            let inner = if group_fits(limit, width, *d) {
                Mode::Unbroken
            } else {
                Mode::Broken
            };
            layout(limit, width, indent, inner, *d, pending)
        },
        Doc::ForceBreak(d) => layout(limit, width, indent, Mode::Broken, *d, pending),
    }
}

/// The text of `doc` rendered for lines of at most `limit` columns.
pub open spec fn render_text(doc: Doc, limit: int) -> Seq<char> {
    layout(limit, 0, 0, Mode::Unbroken, doc, Seq::empty()).text
}

enum Verdict {
    Fits,
    Overflows,
    Open(usize),
}

impl Verdict {
    spec fn view(&self) -> Fit {
        match self {
            Verdict::Fits => Fit::Fits,
            Verdict::Overflows => Fit::Overflows,
            Verdict::Open(w) => Fit::Open(*w as int),
        }
    }
}

/// The documents that wait, as plain values.
spec fn pending_of(s: Seq<(Mode, &Document<'_>)>) -> Seq<Pending> {
    Seq::new(s.len(), |i: int| Pending { mode: s[i].0, doc: s[i].1@ })
}

/// `column` holds the column `w` exactly, or nothing once `w` no longer fits
/// a machine integer.
spec fn tracks(column: Option<usize>, w: int) -> bool {
    match column {
        Some(c) => c == w,
        None => w > usize::MAX,
    }
}

/// The verdict after `len` more columns.
fn grown(limit: usize, width: usize, len: usize) -> (r: Verdict)
    requires
        width <= limit,
    ensures
        r@ == grow(limit as int, width + len),
{
    if len > limit - width {
        Verdict::Overflows
    } else {
        Verdict::Open(width + len)
    }
}

/// Whether the text holds a newline.
pub fn has_newline(s: &str) -> (r: bool)
    ensures
        r == s@.contains('\n'),
{
    let mut found = false;
    for c in it: s.chars()
        invariant
            it.seq() == s@,
            found == s@.take(it.index() as int).contains('\n'),
    {
        let ghost before = s@.take(it.index() as int);
        let ghost after = s@.take(it.index() + 1);
        proof {
            assert(after == before.push(c));
            if before.contains('\n') {
                let k = choose|k: int| 0 <= k < before.len() && before[k] == '\n';
                assert(after[k] == '\n');
            }
            if c == '\n' {
                assert(after[after.len() - 1] == '\n');
            }
        }
        if c == '\n' {
            found = true;
        }
    }
    proof {
        assert(s@.take(s@.len() as int) == s@);
    }
    found
}

/// The verdict after the text `s`.
fn checked_text(limit: usize, width: usize, s: &str) -> (r: Verdict)
    requires
        width <= limit,
    ensures
        r@ == fit_text(limit as int, width as int, s@),
        r matches Verdict::Open(w) ==> w <= limit,
{
    if has_newline(s) {
        Verdict::Overflows
    } else {
        grown(limit, width, s.unicode_len())
    }
}

/// The fit check over one document.
fn check_doc(limit: usize, width: usize, mode: Mode, doc: &Document<'_>) -> (r: Verdict)
    requires
        width <= limit,
    ensures
        r@ == fit_doc(limit as int, width as int, mode, doc@),
        r matches Verdict::Open(w) ==> w <= limit,
    decreases doc,
{
    match doc {
        Document::Nil => Verdict::Open(width),
        Document::Line(_) => Verdict::Fits,
        Document::ForceBreak(_) => Verdict::Overflows,
        Document::Str(s) => checked_text(limit, width, s),
        Document::String(s) => checked_text(limit, width, s.as_str()),
        Document::EcoString(s) => checked_text(limit, width, eco_str(s)),
        Document::Break { unbroken, .. } => match mode {
            Mode::Broken => Verdict::Fits,
            Mode::Unbroken => grown(limit, width, unbroken.unicode_len()),
        },
        Document::Nest(_, d) => check_doc(limit, width, mode, d),
        Document::Group(d) => check_doc(limit, width, Mode::Unbroken, d),
        Document::Cons(a, b) => match check_doc(limit, width, mode, a) {
            Verdict::Open(w) => check_doc(limit, w, mode, b),
            Verdict::Fits => Verdict::Fits,
            Verdict::Overflows => Verdict::Overflows,
        },
    }
}

/// The fit check over the documents that wait.
fn check_pending(limit: usize, width: usize, pending: &Vec<(Mode, &Document<'_>)>) -> (r: bool)
    requires
        width <= limit,
    ensures
        r == fit_pending(limit as int, width as int, pending_of(pending@)),
{
    let ghost all = pending_of(pending@);
    let mut i: usize = pending.len();
    let mut w: usize = width;
    proof {
        assert(all == all.take(i as int));
    }
    while i > 0
        invariant
            i <= pending.len(),
            w <= limit,
            all == pending_of(pending@),
            fit_pending(limit as int, width as int, all) == fit_pending(
                limit as int,
                w as int,
                all.take(i as int),
            ),
        decreases i,
    {
        proof {
            assert(all.take(i as int).drop_last() == all.take(i - 1));
            assert(all.take(i as int).last() == all[i - 1]);
        }
        i -= 1;
        let (mode, doc) = pending[i];
        match check_doc(limit, w, mode, doc) {
            Verdict::Fits => {
                return true;
            },
            Verdict::Overflows => {
                return false;
            },
            Verdict::Open(next) => {
                w = next;
            },
        }
    }
    true
}

/// Appends `n` copies of a character.
fn push_repeated(out: &mut String, piece: &str, Ghost(c): Ghost<char>, n: usize)
    requires
        piece@ == seq![c],
    ensures
        final(out)@ == old(out)@ + repeated(c, n as nat),
{
    let mut i: usize = 0;
    while i < n
        invariant
            i <= n,
            piece@ == seq![c],
            out@ == old(out)@ + repeated(c, i as nat),
        decreases n - i,
    {
        out.append(piece);
        i += 1;
        assert(out@ == old(out)@ + repeated(c, i as nat));
    }
}

/// Appends `n` newlines and the indentation.
fn push_line_start(out: &mut String, n: usize, indent: usize)
    ensures
        final(out)@ == old(out)@ + line_start(n as nat, indent as nat),
{
    proof {
        reveal_strlit("\n");
        reveal_strlit(" ");
        assert("\n"@ == seq!['\n']);
        assert(" "@ == seq![' ']);
    }
    push_repeated(out, "\n", Ghost('\n'), n);
    push_repeated(out, " ", Ghost(' '), indent);
}

/// The column after `len` more characters.
fn advance(column: Option<usize>, Ghost(w): Ghost<int>, len: usize) -> (r: Option<usize>)
    requires
        tracks(column, w),
        0 <= w,
    ensures
        tracks(r, w + len),
{
    match column {
        Some(c) => if len > usize::MAX - c {
            None
        } else {
            Some(c + len)
        },
        None => None,
    }
}

/// The indentation after one more level of nesting.
fn deeper(indent: usize, n: usize) -> (r: usize)
    ensures
        r == next_indent(indent as nat, n as nat),
{
    if n > usize::MAX - indent {
        usize::MAX
    } else {
        indent + n
    }
}

/// Prints `doc` to `out` and returns the column after it. `pending` holds
/// what follows on the line, and is left as it was.
fn print<'d, 'a>(
    out: &mut String,
    limit: usize,
    column: Option<usize>,
    Ghost(w): Ghost<int>,
    indent: usize,
    mode: Mode,
    doc: &'d Document<'a>,
    pending: &mut Vec<(Mode, &'d Document<'a>)>,
) -> (r: Option<usize>)
    requires
        tracks(column, w),
        0 <= w,
    ensures
        final(out)@ == old(out)@ + layout(
            limit as int,
            w,
            indent as nat,
            mode,
            doc@,
            pending_of(old(pending)@),
        ).text,
        tracks(
            r,
            layout(limit as int, w, indent as nat, mode, doc@, pending_of(old(pending)@)).width,
        ),
        0 <= layout(limit as int, w, indent as nat, mode, doc@, pending_of(old(pending)@)).width,
        final(pending)@ == old(pending)@,
    decreases doc,
{
    match doc {
        Document::Nil => {
            assert(out@ == old(out)@ + Seq::<char>::empty());
            column
        },
        Document::Line(n) => {
            push_line_start(out, *n, indent);
            Some(indent)
        },
        Document::Str(s) => {
            out.append(s);
            advance(column, Ghost(w), s.unicode_len())
        },
        Document::String(s) => {
            out.append(s.as_str());
            advance(column, Ghost(w), s.as_str().unicode_len())
        },
        Document::EcoString(s) => {
            let shared = eco_str(s);
            out.append(shared);
            advance(column, Ghost(w), shared.unicode_len())
        },
        Document::Break { broken, unbroken, kind } => {
            let after = advance(column, Ghost(w), unbroken.unicode_len());
            let flat = match kind {
                BreakKind::Strict => match mode {
                    Mode::Unbroken => true,
                    Mode::Broken => false,
                },
                BreakKind::Flex => match after {
                    Some(c) => c <= limit && check_pending(limit, c, pending),
                    None => false,
                },
            };
            if flat {
                out.append(unbroken);
                after
            } else {
                out.append(broken);
                push_line_start(out, 1, indent);
                assert(out@ == old(out)@ + (broken@ + line_start(1, indent as nat)));
                Some(indent)
            }
        },
        Document::Cons(a, b) => {
            let ghost waiting = pending_of(pending@);
            pending.push((mode, &**b));
            assert(pending_of(pending@) == waiting.push(Pending { mode, doc: b@ }));
            let ghost first = layout(limit as int, w, indent as nat, mode, a@, pending_of(pending@));
            let middle = print(out, limit, column, Ghost(w), indent, mode, a, pending);
            pending.pop();
            assert(pending@ == old(pending)@);
            let end = print(out, limit, middle, Ghost(first.width), indent, mode, b, pending);
            assert(out@ == old(out)@ + (first.text + layout(
                limit as int,
                first.width,
                indent as nat,
                mode,
                b@,
                waiting,
            ).text));
            end
        },
        Document::Nest(n, d) => print(out, limit, column, Ghost(w), deeper(indent, *n), mode, d, pending),
        Document::Group(d) => {
            let fits = match column {
                Some(c) => c <= limit && match check_doc(limit, c, Mode::Unbroken, d) {
                    Verdict::Overflows => false,
                    _ => true,
                },
                None => false,
            };
            let inner = if fits {
                Mode::Unbroken
            } else {
                Mode::Broken
            };
            print(out, limit, column, Ghost(w), indent, inner, d, pending)
        },
        Document::ForceBreak(d) => print(out, limit, column, Ghost(w), indent, Mode::Broken, d, pending),
    }
}

/// Renders `doc` for lines of at most `limit` columns. Columns are counted in
/// characters. The renderer descends as deep as the document is nested; a
/// concatenation of many documents is a tree of even depth, so the depth
/// follows the nesting of what is printed and not its length.
pub fn render(doc: &Document<'_>, limit: usize) -> (r: String)
    ensures
        r@ == render_text(doc@, limit as int),
{
    let mut out = String::new();
    let mut pending: Vec<(Mode, &Document<'_>)> = Vec::new();
    assert(pending_of(pending@) == Seq::<Pending>::empty());
    let _ = print(&mut out, limit, Some(0), Ghost(0), 0, Mode::Unbroken, doc, &mut pending);
    assert(out@ == Seq::<char>::empty() + render_text(doc@, limit as int));
    out
}

/// Whether a document can be printed on one line by its group alone: it has
/// no mandatory line break, no forced break, no flex break and no text with
/// a newline in it.
pub open spec fn one_line(doc: Doc) -> bool
    decreases doc,
{
    match doc {
        Doc::Nil => true,
        Doc::Text(s) | Doc::String(s) => !s.contains('\n'),
        Doc::Line(_) | Doc::ForceBreak(_) => false,
        Doc::Break { flex, .. } => !flex,
        Doc::Cons(a, b) => one_line(*a) && one_line(*b),
        Doc::Nest(_, d) => one_line(*d),
        Doc::Group(d) => one_line(*d),
    }
}

/// The text of a document with every break flat.
pub open spec fn flat_text(doc: Doc) -> Seq<char>
    decreases doc,
{
    match doc {
        Doc::Text(s) => s,
        Doc::String(s) => s,
        Doc::Break { unbroken, .. } => unbroken,
        Doc::Cons(a, b) => flat_text(*a) + flat_text(*b),
        Doc::Nest(_, d) => flat_text(*d),
        Doc::Group(d) => flat_text(*d),
        Doc::ForceBreak(d) => flat_text(*d),
        Doc::Nil | Doc::Line(_) => Seq::empty(),
    }
}

/// The fit check of a one-line document measures its flat text.
pub proof fn fit_measures_the_flat_text(limit: int, width: int, doc: Doc)
    requires
        one_line(doc),
        0 <= width <= limit,
    ensures
        fit_doc(limit, width, Mode::Unbroken, doc) == grow(limit, width + flat_text(doc).len()),
    decreases doc,
{
    match doc {
        Doc::Cons(a, b) => {
            fit_measures_the_flat_text(limit, width, *a);
            if width + flat_text(*a).len() <= limit {
                fit_measures_the_flat_text(limit, width + flat_text(*a).len(), *b);
            }
        },
        Doc::Nest(_, d) => {
            fit_measures_the_flat_text(limit, width, *d);
        },
        Doc::Group(d) => {
            fit_measures_the_flat_text(limit, width, *d);
        },
        _ => {},
    }
}

/// A one-line document whose flat text ends within the limit is printed
/// flat.
pub proof fn what_fits_is_printed_flat(
    limit: int,
    width: int,
    indent: nat,
    doc: Doc,
    pending: Seq<Pending>,
)
    requires
        one_line(doc),
        0 <= width,
        width + flat_text(doc).len() <= limit,
    ensures
        layout(limit, width, indent, Mode::Unbroken, doc, pending) == (Layout {
            text: flat_text(doc),
            width: width + flat_text(doc).len(),
        }),
    decreases doc,
{
    match doc {
        Doc::Cons(a, b) => {
            what_fits_is_printed_flat(
                limit,
                width,
                indent,
                *a,
                pending.push(Pending { mode: Mode::Unbroken, doc: *b }),
            );
            what_fits_is_printed_flat(limit, width + flat_text(*a).len(), indent, *b, pending);
        },
        Doc::Nest(n, d) => {
            what_fits_is_printed_flat(limit, width, next_indent(indent, n), *d, pending);
        },
        Doc::Group(d) => {
            fit_measures_the_flat_text(limit, width, *d);
            what_fits_is_printed_flat(limit, width, indent, *d, pending);
        },
        Doc::Nil => {
            assert(flat_text(doc) =~= Seq::<char>::empty());
        },
        _ => {},
    }
}

/// A group without a line break, a forced break, a flex break or a newline
/// in its text stays flat exactly when its flat text ends within the limit: it is then printed as
/// its flat text, and broken otherwise.
pub proof fn a_group_stays_flat_exactly_when_it_fits(
    limit: int,
    width: int,
    indent: nat,
    mode: Mode,
    doc: Doc,
    pending: Seq<Pending>,
)
    requires
        one_line(doc),
        0 <= width,
    ensures
        group_fits(limit, width, doc) <==> width + flat_text(doc).len() <= limit,
        width + flat_text(doc).len() <= limit ==> layout(
            limit,
            width,
            indent,
            mode,
            doc.group(),
            pending,
        ).text == flat_text(doc),
        width + flat_text(doc).len() > limit ==> layout(
            limit,
            width,
            indent,
            mode,
            doc.group(),
            pending,
        ) == layout(limit, width, indent, Mode::Broken, doc, pending),
{
    if width <= limit {
        fit_measures_the_flat_text(limit, width, doc);
    }
    if width + flat_text(doc).len() <= limit {
        what_fits_is_printed_flat(limit, width, indent, doc, pending);
    }
}

/// Text with a newline in it breaks the group around it: a group that
/// holds such text, alone or behind a document that leaves the line open,
/// does not stay flat, however wide the line is.
pub proof fn text_with_a_newline_breaks_its_group(limit: int, width: int, before: Doc, s: Seq<char>)
    requires
        s.contains('\n'),
        fit_doc(limit, width, Mode::Unbroken, before) is Open,
    ensures
        !group_fits(limit, width, Doc::Text(s)),
        !group_fits(limit, width, Doc::String(s)),
        !group_fits(limit, width, before.append(Doc::Text(s))),
        !group_fits(limit, width, before.append(Doc::String(s))),
{
    reveal_with_fuel(fit_doc, 2);
}

} // verus!
