//! Lowering of patterns.

use vstd::prelude::*;
use vstd::string::*;
use crate::ast::{AssignName, BitArrayOption, BitArraySegment, CallArg, Pattern, SrcSpan};
use crate::literal::{float, float_doc, int_, int_doc, string, string_doc};
use crate::pretty::{break_, docs_of, join, nil, text, Doc, Document, INDENT};
use crate::segment::{option_doc, segment_option};
use crate::trivia::{commented, commented_doc, push_doc, Formatter, Lowered, LoweredAll, Trivia};
use crate::wrap::{
    bit_array,
    bit_array_doc,
    wrap_args,
    wrap_args_doc,
    wrap_args_with_spread,
    wrap_args_with_spread_doc,
};

verus! {

impl Pattern {
    /// The span the pattern was parsed from.
    pub open spec fn span(&self) -> SrcSpan {
        match self {
            Pattern::Int { location, .. }
            | Pattern::Float { location, .. }
            | Pattern::String { location, .. }
            | Pattern::Variable { location, .. }
            | Pattern::VarUsage { location, .. }
            | Pattern::Assign { location, .. }
            | Pattern::Discard { location, .. }
            | Pattern::List { location, .. }
            | Pattern::Constructor { location, .. }
            | Pattern::Tuple { location, .. }
            | Pattern::BitArray { location, .. }
            | Pattern::StringPrefix { location, .. } => *location,
        }
    }

    /// The span the pattern was parsed from.
    pub fn location(&self) -> (r: SrcSpan)
        ensures
            r == self.span(),
    {
        match self {
            Pattern::Int { location, .. }
            | Pattern::Float { location, .. }
            | Pattern::String { location, .. }
            | Pattern::Variable { location, .. }
            | Pattern::VarUsage { location, .. }
            | Pattern::Assign { location, .. }
            | Pattern::Discard { location, .. }
            | Pattern::List { location, .. }
            | Pattern::Constructor { location, .. }
            | Pattern::Tuple { location, .. }
            | Pattern::BitArray { location, .. }
            | Pattern::StringPrefix { location, .. } => *location,
        }
    }

    /// Whether the pattern is a discard.
    pub fn is_discard(&self) -> (r: bool)
        ensures
            r == (self is Discard),
    {
        match self {
            Pattern::Discard { .. } => true,
            _ => false,
        }
    }

    /// Whether the pattern, as the only argument of a constructor, may hug
    /// its parentheses: a tuple, a list, a bit array, or a constructor with
    /// arguments.
    pub open spec fn breakable(&self) -> bool {
        match self {
            Pattern::Tuple { .. } | Pattern::List { .. } | Pattern::BitArray { .. } => true,
            Pattern::Constructor { arguments, .. } => arguments@.len() != 0,
            _ => false,
        }
    }

    /// Whether the pattern, as the only argument of a constructor, may hug
    /// its parentheses.
    pub fn is_breakable(&self) -> (r: bool)
        ensures
            r == self.breakable(),
    {
        match self {
            Pattern::Tuple { .. } | Pattern::List { .. } | Pattern::BitArray { .. } => true,
            Pattern::Constructor { arguments, .. } => arguments.len() != 0,
            _ => false,
        }
    }
}

impl AssignName {
    /// The name as it is written.
    pub open spec fn spec_name(&self) -> Seq<char> {
        match self {
            AssignName::Variable(name) => name@,
            AssignName::Discard(name) => name@,
        }
    }

    /// The name as it is written.
    pub fn name(&self) -> (r: &str)
        ensures
            r@ == self.spec_name(),
    {
        match self {
            AssignName::Variable(name) => name.as_str(),
            AssignName::Discard(name) => name.as_str(),
        }
    }
}

/// The first `n` patterns of `patterns`, lowered one after the other.
pub open spec fn patterns_low(patterns: Seq<Pattern>, n: int, t: Trivia) -> LoweredAll
    decreases patterns, n,
{
    if n <= 0 || n > patterns.len() {
        LoweredAll { docs: Seq::empty(), trivia: t }
    } else {
        let before = patterns_low(patterns, n - 1, t);
        let next = pattern_low(&patterns[n - 1], before.trivia);
        LoweredAll { docs: before.docs.push(next.doc), trivia: next.trivia }
    }
}

/// An argument of a constructor pattern: its label, if it has one, and its
/// pattern.
pub open spec fn pattern_arg_low(arg: &CallArg<Pattern>, t: Trivia) -> Lowered
    decreases arg, 0int,
{
    let value = pattern_low(&arg.value, t);
    let label = match arg.label {
        Some(label) => Doc::text(label@).append(Doc::text(": "@)),
        None => Doc::Nil,
    };
    Lowered { doc: label.append(value.doc), trivia: value.trivia }
}

/// Lowers the first `n` arguments of a constructor pattern, one after the
/// other.
pub open spec fn pattern_args_low(args: Seq<CallArg<Pattern>>, n: int, t: Trivia) -> LoweredAll
    decreases args, n,
{
    if n <= 0 || n > args.len() {
        LoweredAll { docs: Seq::empty(), trivia: t }
    } else {
        let before = pattern_args_low(args, n - 1, t);
        let next = pattern_arg_low(&args[n - 1], before.trivia);
        LoweredAll { docs: before.docs.push(next.doc), trivia: next.trivia }
    }
}

/// Lowers the first `n` options of a segment, one after the other.
pub open spec fn pattern_options_low(
    options: Seq<BitArrayOption<Pattern>>,
    n: int,
    t: Trivia,
) -> LoweredAll
    decreases options, n,
{
    if n <= 0 || n > options.len() {
        LoweredAll { docs: Seq::empty(), trivia: t }
    } else {
        let before = pattern_options_low(options, n - 1, t);
        let inner = match options[n - 1] {
            BitArrayOption::Size { value, .. } => pattern_low(&*value, before.trivia),
            _ => Lowered { doc: Doc::Nil, trivia: before.trivia },
        };
        LoweredAll {
            docs: before.docs.push(option_doc(&options[n - 1], inner.doc)),
            trivia: inner.trivia,
        }
    }
}

/// A segment of a bit array pattern: its value, and its options after a colon
/// with dashes between them.
pub open spec fn pattern_segment_low(segment: &BitArraySegment<Pattern>, t: Trivia) -> Lowered
    decreases segment, 0int,
{
    let value = pattern_low(&*segment.value, t);
    if segment.options@.len() == 0 {
        value
    } else {
        let options = pattern_options_low(
            segment.options@,
            segment.options@.len() as int,
            value.trivia,
        );
        Lowered {
            doc: value.doc.append(Doc::text(":"@)).append(Doc::join(options.docs, Doc::text("-"@))),
            trivia: options.trivia,
        }
    }
}

/// Lowers the first `n` segments of a bit array pattern, one after the
/// other.
pub open spec fn pattern_segments_low(
    segments: Seq<BitArraySegment<Pattern>>,
    n: int,
    t: Trivia,
) -> LoweredAll
    decreases segments, n,
{
    if n <= 0 || n > segments.len() {
        LoweredAll { docs: Seq::empty(), trivia: t }
    } else {
        let before = pattern_segments_low(segments, n - 1, t);
        let next = pattern_segment_low(&segments[n - 1], before.trivia);
        LoweredAll { docs: before.docs.push(next.doc), trivia: next.trivia }
    }
}

/// A list pattern. The comments before its tail are popped after its elements.
pub open spec fn list_pattern_low(pattern: &Pattern, t: Trivia) -> Lowered
    decreases pattern, 0int,
{
    match pattern {
        Pattern::List { elements, tail, .. } => {
            if elements@.len() == 0 {
                match tail {
                    Some(tail) => pattern_low(&**tail, t),
                    None => Lowered { doc: Doc::text("[]"@), trivia: t },
                }
            } else {
                let items = patterns_low(elements@, elements@.len() as int, t);
                let doc = Doc::break_("["@, "["@).append(
                    Doc::join(items.docs, Doc::break_(","@, ", "@)),
                );
                match tail {
                    None => Lowered {
                        doc: doc.nest(INDENT as nat).append(Doc::break_(","@, ""@)).append(
                            Doc::text("]"@),
                        ).group(),
                        trivia: items.trivia,
                    },
                    Some(tail) => {
                        let comments = items.trivia.comments_upto(tail.span().start);
                        let after = items.trivia.after_comments(tail.span().start);
                        let rest = if **tail is Discard {
                            Lowered { doc: Doc::text(".."@), trivia: after }
                        } else {
                            let inner = pattern_low(&**tail, after);
                            Lowered {
                                doc: Doc::text(".."@).append(inner.doc),
                                trivia: inner.trivia,
                            }
                        };
                        Lowered {
                            doc: doc.append(Doc::break_(","@, ", "@)).append(
                                commented_doc(rest.doc, comments),
                            ).nest(INDENT as nat).append(Doc::break_(""@, ""@)).append(
                                Doc::text("]"@),
                            ).group(),
                            trivia: rest.trivia,
                        }
                    },
                }
            }
        },
        _ => Lowered { doc: Doc::Nil, trivia: t },
    }
}

/// A constructor pattern.
pub open spec fn pattern_constructor_low(pattern: &Pattern, t: Trivia) -> Lowered
    decreases pattern, 0int,
{
    match pattern {
        Pattern::Constructor { name, arguments, module, with_spread, .. } => {
            let head = match module {
                Some(m) => Doc::text(m@).append(Doc::text("."@)).append(Doc::text(name@)),
                None => Doc::text(name@),
            };
            if arguments@.len() == 0 && *with_spread {
                Lowered { doc: head.append(Doc::text("(..)"@)), trivia: t }
            } else if arguments@.len() == 0 {
                Lowered { doc: head, trivia: t }
            } else if *with_spread {
                let args = pattern_args_low(arguments@, arguments@.len() as int, t);
                Lowered {
                    doc: head.append(wrap_args_with_spread_doc(args.docs)),
                    trivia: args.trivia,
                }
            } else if arguments@.len() == 1 && arguments@[0].value.breakable() {
                let arg = pattern_arg_low(&arguments@[0], t);
                Lowered {
                    doc: head.append(Doc::text("("@)).append(arg.doc).append(
                        Doc::text(")"@),
                    ).group(),
                    trivia: arg.trivia,
                }
            } else {
                let args = pattern_args_low(arguments@, arguments@.len() as int, t);
                Lowered { doc: head.append(wrap_args_doc(args.docs)).group(), trivia: args.trivia }
            }
        },
        _ => Lowered { doc: Doc::Nil, trivia: t },
    }
}

/// A pattern under the comments that stand before it.
pub open spec fn pattern_low(pattern: &Pattern, t: Trivia) -> Lowered
    decreases pattern, 1int,
{
    let comments = t.comments_upto(pattern.span().start);
    let t = t.after_comments(pattern.span().start);
    let inner = match pattern {
        Pattern::Int { value, .. } => Lowered { doc: int_doc(value@), trivia: t },
        Pattern::Float { value, .. } => Lowered { doc: float_doc(value@), trivia: t },
        Pattern::String { value, .. } => Lowered { doc: string_doc(value@), trivia: t },
        Pattern::Variable { name, .. } => Lowered { doc: Doc::text(name@), trivia: t },
        Pattern::VarUsage { name, .. } => Lowered { doc: Doc::text(name@), trivia: t },
        Pattern::Assign { name, pattern, .. } => {
            let inner = pattern_low(&**pattern, t);
            Lowered {
                doc: inner.doc.append(Doc::text(" as "@)).append(Doc::text(name@)),
                trivia: inner.trivia,
            }
        },
        Pattern::Discard { name, .. } => Lowered { doc: Doc::text(name@), trivia: t },
        Pattern::List { .. } => list_pattern_low(pattern, t),
        Pattern::Constructor { .. } => pattern_constructor_low(pattern, t),
        Pattern::Tuple { elems, .. } => {
            let items = patterns_low(elems@, elems@.len() as int, t);
            Lowered {
                doc: Doc::text("#"@).append(wrap_args_doc(items.docs)).group(),
                trivia: items.trivia,
            }
        },
        Pattern::BitArray { segments, .. } => {
            let items = pattern_segments_low(segments@, segments@.len() as int, t);
            Lowered { doc: bit_array_doc(items.docs, false), trivia: items.trivia }
        },
        Pattern::StringPrefix {
            left_side_string,
            left_side_assignment,
            right_side_assignment,
            ..
        } => {
            let left = string_doc(left_side_string@);
            let right = Doc::text(right_side_assignment.spec_name());
            Lowered {
                doc: match left_side_assignment {
                    Some(name) => left.append(Doc::text(" as "@)).append(Doc::text(name@)).append(
                        Doc::text(" <> "@),
                    ).append(right),
                    None => left.append(Doc::text(" <> "@)).append(right),
                },
                trivia: t,
            }
        },
    };
    Lowered { doc: commented_doc(inner.doc, comments), trivia: inner.trivia }
}

impl<'c> Formatter<'c> {
    /// Lowers a pattern, with the comments before it.
    pub fn pattern<'a>(&mut self, pattern: &'a Pattern) -> (r: Document<'a>)
        ensures
            r@ == pattern_low(pattern, old(self)@).doc,
            final(self)@ == pattern_low(pattern, old(self)@).trivia,
        decreases pattern, 1int,
    {
        let comments = self.pop_comments(pattern.location().start);
        let doc = match pattern {
            Pattern::Int { value, .. } => int_(value.as_str()),
            Pattern::Float { value, .. } => float(value.as_str()),
            Pattern::String { value, .. } => string(value.as_str()),
            Pattern::Variable { name, .. } => text(name.as_str()),
            Pattern::VarUsage { name, .. } => text(name.as_str()),
            Pattern::Assign { name, pattern, .. } => self.pattern(pattern).append(
                text(" as "),
            ).append(text(name.as_str())),
            Pattern::Discard { name, .. } => text(name.as_str()),
            Pattern::List { .. } => self.list_pattern(pattern),
            Pattern::Constructor { .. } => self.pattern_constructor(pattern),
            Pattern::Tuple { elems, .. } => text("#").append(
                wrap_args(self.patterns(elems)),
            ).group(),
            Pattern::BitArray { segments, .. } => bit_array(self.pattern_segments(segments), false),
            Pattern::StringPrefix {
                left_side_string,
                left_side_assignment,
                right_side_assignment,
                ..
            } => {
                let left = string(left_side_string.as_str());
                let right = text(right_side_assignment.name());
                match left_side_assignment {
                    Some(name) => left.append(text(" as ")).append(text(name.as_str())).append(
                        text(" <> "),
                    ).append(right),
                    None => left.append(text(" <> ")).append(right),
                }
            },
        };
        commented(doc, &comments)
    }

    /// Lowers each of `patterns` in turn.
    pub fn patterns<'a>(&mut self, patterns: &'a Vec<Pattern>) -> (r: Vec<Document<'a>>)
        ensures
            docs_of(r@) == patterns_low(patterns@, patterns@.len() as int, old(self)@).docs,
            final(self)@ == patterns_low(patterns@, patterns@.len() as int, old(self)@).trivia,
        decreases patterns, 0int,
    {
        let ghost start = self@;
        let mut docs: Vec<Document<'a>> = Vec::new();
        let mut i: usize = 0;
        assert(docs_of(docs@) =~= patterns_low(patterns@, 0, start).docs);
        while i < patterns.len()
            invariant
                i <= patterns@.len(),
                docs_of(docs@) == patterns_low(patterns@, i as int, start).docs,
                self@ == patterns_low(patterns@, i as int, start).trivia,
            decreases patterns@.len() - i,
        {
            let doc = self.pattern(&patterns[i]);
            push_doc(&mut docs, doc);
            i += 1;
        }
        docs
    }

    /// A list pattern, with its tail where it has one.
    fn list_pattern<'a>(&mut self, pattern: &'a Pattern) -> (r: Document<'a>)
        ensures
            r@ == list_pattern_low(pattern, old(self)@).doc,
            final(self)@ == list_pattern_low(pattern, old(self)@).trivia,
        decreases pattern, 0int,
    {
        match pattern {
            Pattern::List { elements, tail, .. } => {
                if elements.len() == 0 {
                    return match tail {
                        Some(tail) => self.pattern(tail),
                        None => text("[]"),
                    };
                }
                let items = join(self.patterns(elements), break_(",", ", "));
                let doc = break_("[", "[").append(items);
                match tail {
                    None => doc.nest(INDENT).append(break_(",", "")),
                    Some(tail) => {
                        let comments = self.pop_comments(tail.location().start);
                        let rest = if tail.is_discard() {
                            text("..")
                        } else {
                            text("..").append(self.pattern(tail))
                        };
                        let rest = commented(rest, &comments);
                        doc.append(break_(",", ", ")).append(rest).nest(INDENT).append(
                            break_("", ""),
                        )
                    },
                }.append(text("]")).group()
            },
            _ => nil(),
        }
    }

    /// A constructor pattern: the name and its arguments.
    fn pattern_constructor<'a>(&mut self, pattern: &'a Pattern) -> (r: Document<'a>)
        ensures
            r@ == pattern_constructor_low(pattern, old(self)@).doc,
            final(self)@ == pattern_constructor_low(pattern, old(self)@).trivia,
        decreases pattern, 0int,
    {
        match pattern {
            Pattern::Constructor { name, arguments, module, with_spread, .. } => {
                let head = match module {
                    Some(m) => text(m.as_str()).append(text(".")).append(text(name.as_str())),
                    None => text(name.as_str()),
                };
                if arguments.len() == 0 && *with_spread {
                    head.append(text("(..)"))
                } else if arguments.len() == 0 {
                    head
                } else if *with_spread {
                    head.append(wrap_args_with_spread(self.pattern_call_args(arguments)))
                } else if arguments.len() == 1 && arguments[0].value.is_breakable() {
                    head.append(text("(")).append(self.pattern_call_arg(&arguments[0])).append(
                        text(")"),
                    ).group()
                } else {
                    head.append(wrap_args(self.pattern_call_args(arguments))).group()
                }
            },
            _ => nil(),
        }
    }

    /// One argument of a constructor pattern, behind its label where it has
    /// one.
    fn pattern_call_arg<'a>(&mut self, arg: &'a CallArg<Pattern>) -> (r: Document<'a>)
        ensures
            r@ == pattern_arg_low(arg, old(self)@).doc,
            final(self)@ == pattern_arg_low(arg, old(self)@).trivia,
        decreases arg, 0int,
    {
        let label = match &arg.label {
            Some(label) => text(label.as_str()).append(text(": ")),
            None => nil(),
        };
        label.append(self.pattern(&arg.value))
    }

    /// The arguments of a constructor pattern.
    fn pattern_call_args<'a>(&mut self, args: &'a Vec<CallArg<Pattern>>) -> (r: Vec<Document<'a>>)
        ensures
            docs_of(r@) == pattern_args_low(args@, args@.len() as int, old(self)@).docs,
            final(self)@ == pattern_args_low(args@, args@.len() as int, old(self)@).trivia,
        decreases args, 0int,
    {
        let ghost start = self@;
        let mut docs: Vec<Document<'a>> = Vec::new();
        let mut i: usize = 0;
        assert(docs_of(docs@) =~= pattern_args_low(args@, 0, start).docs);
        while i < args.len()
            invariant
                i <= args@.len(),
                docs_of(docs@) == pattern_args_low(args@, i as int, start).docs,
                self@ == pattern_args_low(args@, i as int, start).trivia,
            decreases args@.len() - i,
        {
            let doc = self.pattern_call_arg(&args[i]);
            push_doc(&mut docs, doc);
            i += 1;
        }
        docs
    }

    /// One segment of a bit array pattern: its value and its options.
    fn pattern_segment<'a>(&mut self, segment: &'a BitArraySegment<Pattern>) -> (r: Document<'a>)
        ensures
            r@ == pattern_segment_low(segment, old(self)@).doc,
            final(self)@ == pattern_segment_low(segment, old(self)@).trivia,
        decreases segment, 0int,
    {
        let value = self.pattern(&segment.value);
        if segment.options.len() == 0 {
            return value;
        }
        let ghost start = self@;
        let options = &segment.options;
        let mut docs: Vec<Document<'a>> = Vec::new();
        let mut i: usize = 0;
        assert(docs_of(docs@) =~= pattern_options_low(options@, 0, start).docs);
        while i < options.len()
            invariant
                i <= options@.len(),
                options == &segment.options,
                docs_of(docs@) == pattern_options_low(options@, i as int, start).docs,
                self@ == pattern_options_low(options@, i as int, start).trivia,
            decreases options@.len() - i,
        {
            let inner = match &options[i] {
                BitArrayOption::Size { value, .. } => self.pattern(value),
                _ => nil(),
            };
            push_doc(&mut docs, segment_option(&options[i], inner));
            i += 1;
        }
        value.append(text(":")).append(join(docs, text("-")))
    }

    /// The segments of a bit array pattern.
    fn pattern_segments<'a>(&mut self, segments: &'a Vec<BitArraySegment<Pattern>>) -> (r: Vec<
        Document<'a>,
    >)
        ensures
            docs_of(r@) == pattern_segments_low(segments@, segments@.len() as int, old(self)@).docs,
            final(self)@ == pattern_segments_low(
                segments@,
                segments@.len() as int,
                old(self)@,
            ).trivia,
        decreases segments, 0int,
    {
        let ghost start = self@;
        let mut docs: Vec<Document<'a>> = Vec::new();
        let mut i: usize = 0;
        assert(docs_of(docs@) =~= pattern_segments_low(segments@, 0, start).docs);
        while i < segments.len()
            invariant
                i <= segments@.len(),
                docs_of(docs@) == pattern_segments_low(segments@, i as int, start).docs,
                self@ == pattern_segments_low(segments@, i as int, start).trivia,
            decreases segments@.len() - i,
        {
            let doc = self.pattern_segment(&segments[i]);
            push_doc(&mut docs, doc);
            i += 1;
        }
        docs
    }
}

} // verus!
