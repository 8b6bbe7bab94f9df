//! Patterns say the comments they pop in their order.

use vstd::prelude::*;
use crate::ast::{BitArrayOption, BitArraySegment, CallArg, Pattern};
use crate::order::{
    after_a_pop,
    an_option_says,
    as_one,
    commented_follows,
    follows,
    follows_all,
    join_says,
    literals_are_quiet,
    none_follows,
    one_after_the_other,
    one_more_follows,
    quiet_follows,
    reshaped,
    said,
    wrapped_says,
};
use crate::pattern::{
    list_pattern_low,
    pattern_arg_low,
    pattern_args_low,
    pattern_constructor_low,
    pattern_low,
    pattern_options_low,
    pattern_segment_low,
    pattern_segments_low,
    patterns_low,
};
use crate::pretty::Doc;
use crate::segment::option_doc;
use crate::trivia::{Lowered, Trivia};

verus! {

/// A list of patterns says the comments it pops in their order.
pub proof fn patterns_follow(patterns: Seq<Pattern>, n: int, t: Trivia)
    requires
        t.ordered(),
    ensures
        follows_all(t, patterns_low(patterns, n, t)),
    decreases patterns, n,
{
    if !(n <= 0 || n > patterns.len()) {
        patterns_follow(patterns, n - 1, t);
        let before = patterns_low(patterns, n - 1, t);
        pattern_follows(&patterns[n - 1], before.trivia);
        one_more_follows(t, before, pattern_low(&patterns[n - 1], before.trivia));
    } else {
        none_follows(t);
    }
}

proof fn pattern_arg_follows(arg: &CallArg<Pattern>, t: Trivia)
    requires
        t.ordered(),
    ensures
        follows(t, pattern_arg_low(arg, t)),
    decreases arg, 0int,
{
    pattern_follows(&arg.value, t);
    let value = pattern_low(&arg.value, t);
    assert forall|prefix: Seq<char>| #[trigger]
        said(pattern_arg_low(arg, t).doc, prefix) =~= said(value.doc, prefix) by {
        reveal_with_fuel(said, 4);
    }
    reshaped(t, value, pattern_arg_low(arg, t).doc);
}

proof fn pattern_args_follow(args: Seq<CallArg<Pattern>>, n: int, t: Trivia)
    requires
        t.ordered(),
    ensures
        follows_all(t, pattern_args_low(args, n, t)),
    decreases args, n,
{
    if !(n <= 0 || n > args.len()) {
        pattern_args_follow(args, n - 1, t);
        let before = pattern_args_low(args, n - 1, t);
        pattern_arg_follows(&args[n - 1], before.trivia);
        one_more_follows(t, before, pattern_arg_low(&args[n - 1], before.trivia));
    } else {
        none_follows(t);
    }
}

proof fn pattern_options_follow(options: Seq<BitArrayOption<Pattern>>, n: int, t: Trivia)
    requires
        t.ordered(),
    ensures
        follows_all(t, pattern_options_low(options, n, t)),
    decreases options, n,
{
    if !(n <= 0 || n > options.len()) {
        pattern_options_follow(options, n - 1, t);
        let before = pattern_options_low(options, n - 1, t);
        let inner = match options[n - 1] {
            BitArrayOption::Size { value, .. } => pattern_low(&*value, before.trivia),
            _ => Lowered { doc: Doc::Nil, trivia: before.trivia },
        };
        match options[n - 1] {
            BitArrayOption::Size { value, .. } => {
                pattern_follows(&*value, before.trivia);
            },
            _ => {
                quiet_follows(before.trivia, Doc::Nil);
            },
        }
        an_option_says(&options[n - 1], inner.doc);
        reshaped(before.trivia, inner, option_doc(&options[n - 1], inner.doc));
        one_more_follows(
            t,
            before,
            Lowered { doc: option_doc(&options[n - 1], inner.doc), trivia: inner.trivia },
        );
    } else {
        none_follows(t);
    }
}

proof fn pattern_segment_follows(segment: &BitArraySegment<Pattern>, t: Trivia)
    requires
        t.ordered(),
    ensures
        follows(t, pattern_segment_low(segment, t)),
    decreases segment, 0int,
{
    pattern_follows(&*segment.value, t);
    if segment.options@.len() != 0 {
        let value = pattern_low(&*segment.value, t);
        pattern_options_follow(segment.options@, segment.options@.len() as int, value.trivia);
        let options = pattern_options_low(
            segment.options@,
            segment.options@.len() as int,
            value.trivia,
        );
        let joined = Doc::join(options.docs, Doc::text("-"@));
        join_says(options.docs, Doc::text("-"@));
        as_one(value.trivia, options, joined);
        let doc = pattern_segment_low(segment, t).doc;
        assert forall|prefix: Seq<char>| #[trigger]
            said(doc, prefix) =~= said(value.doc, prefix) + said(joined, prefix) by {
            reveal_with_fuel(said, 4);
        }
        one_after_the_other(t, value, Lowered { doc: joined, trivia: options.trivia }, doc);
    }
}

proof fn pattern_segments_follow(segments: Seq<BitArraySegment<Pattern>>, n: int, t: Trivia)
    requires
        t.ordered(),
    ensures
        follows_all(t, pattern_segments_low(segments, n, t)),
    decreases segments, n,
{
    if !(n <= 0 || n > segments.len()) {
        pattern_segments_follow(segments, n - 1, t);
        let before = pattern_segments_low(segments, n - 1, t);
        pattern_segment_follows(&segments[n - 1], before.trivia);
        one_more_follows(t, before, pattern_segment_low(&segments[n - 1], before.trivia));
    } else {
        none_follows(t);
    }
}

proof fn list_pattern_follows(pattern: &Pattern, t: Trivia)
    requires
        t.ordered(),
    ensures
        follows(t, list_pattern_low(pattern, t)),
    decreases pattern, 0int,
{
    match pattern {
        Pattern::List { elements, tail, .. } => {
            if elements@.len() == 0 {
                match tail {
                    Some(tail) => {
                        pattern_follows(&**tail, t);
                    },
                    None => {
                        quiet_follows(t, Doc::text("[]"@));
                    },
                }
            } else {
                patterns_follow(elements@, elements@.len() as int, t);
                let items = patterns_low(elements@, elements@.len() as int, t);
                let joined = Doc::join(items.docs, Doc::break_(","@, ", "@));
                join_says(items.docs, Doc::break_(","@, ", "@));
                as_one(t, items, joined);
                let first = Lowered { doc: joined, trivia: items.trivia };
                let doc = list_pattern_low(pattern, t).doc;
                match tail {
                    None => {
                        assert forall|prefix: Seq<char>| #[trigger]
                            said(doc, prefix) =~= said(joined, prefix) by {
                            reveal_with_fuel(said, 8);
                        }
                        reshaped(t, first, doc);
                    },
                    Some(tail) => {
                        let start = tail.span().start;
                        let after = items.trivia.after_comments(start);
                        after_a_pop(items.trivia, start);
                        let rest = if **tail is Discard {
                            Lowered { doc: Doc::text(".."@), trivia: after }
                        } else {
                            let inner = pattern_low(&**tail, after);
                            Lowered { doc: Doc::text(".."@).append(inner.doc), trivia: inner.trivia }
                        };
                        if **tail is Discard {
                            quiet_follows(after, Doc::text(".."@));
                        } else {
                            pattern_follows(&**tail, after);
                            let inner = pattern_low(&**tail, after);
                            assert forall|prefix: Seq<char>| #[trigger]
                                said(rest.doc, prefix) =~= said(inner.doc, prefix) by {
                                reveal_with_fuel(said, 2);
                            }
                            reshaped(after, inner, rest.doc);
                        }
                        commented_follows(items.trivia, start, rest);
                        let second = Lowered {
                            doc: crate::trivia::commented_doc(
                                rest.doc,
                                items.trivia.comments_upto(start),
                            ),
                            trivia: rest.trivia,
                        };
                        assert forall|prefix: Seq<char>| #[trigger]
                            said(doc, prefix) =~= said(joined, prefix) + said(second.doc, prefix) by {
                            reveal_with_fuel(said, 8);
                        }
                        one_after_the_other(t, first, second, doc);
                    },
                }
            }
        },
        _ => {
            quiet_follows(t, Doc::Nil);
        },
    }
}

proof fn pattern_constructor_follows(pattern: &Pattern, t: Trivia)
    requires
        t.ordered(),
    ensures
        follows(t, pattern_constructor_low(pattern, t)),
    decreases pattern, 0int,
{
    let doc = pattern_constructor_low(pattern, t).doc;
    match pattern {
        Pattern::Constructor { arguments, with_spread, .. } => {
            if arguments@.len() == 0 {
                assert(crate::order::quiet(doc)) by {
                    reveal_with_fuel(said, 5);
                }
                quiet_follows(t, doc);
            } else if !*with_spread && arguments@.len() == 1 && arguments@[0].value.breakable() {
                pattern_arg_follows(&arguments@[0], t);
                let arg = pattern_arg_low(&arguments@[0], t);
                assert forall|prefix: Seq<char>| #[trigger]
                    said(doc, prefix) =~= said(arg.doc, prefix) by {
                    reveal_with_fuel(said, 8);
                }
                reshaped(t, arg, doc);
            } else {
                pattern_args_follow(arguments@, arguments@.len() as int, t);
                let args = pattern_args_low(arguments@, arguments@.len() as int, t);
                wrapped_says(args.docs, Doc::Nil, false);
                assert forall|prefix: Seq<char>| #[trigger]
                    said(doc, prefix) =~= crate::order::said_all(args.docs, prefix) by {
                    reveal_with_fuel(said, 6);
                    assert(said(crate::wrap::wrap_args_doc(args.docs), prefix)
                        =~= crate::order::said_all(args.docs, prefix));
                    assert(said(crate::wrap::wrap_args_with_spread_doc(args.docs), prefix)
                        =~= crate::order::said_all(args.docs, prefix));
                }
                as_one(t, args, doc);
            }
        },
        _ => {
            quiet_follows(t, Doc::Nil);
        },
    }
}

/// A pattern says the comments it pops in their order.
pub proof fn pattern_follows(pattern: &Pattern, t: Trivia)
    requires
        t.ordered(),
    ensures
        follows(t, pattern_low(pattern, t)),
    decreases pattern, 1int,
{
    let start = pattern.span().start;
    let t1 = t.after_comments(start);
    after_a_pop(t, start);
    match pattern {
        Pattern::Int { value, .. } => {
            literals_are_quiet(value@);
            let inner = Lowered { doc: crate::literal::int_doc(value@), trivia: t1 };
            quiet_follows(t1, inner.doc);
            commented_follows(t, start, inner);
        },
        Pattern::Float { value, .. } => {
            literals_are_quiet(value@);
            let inner = Lowered { doc: crate::literal::float_doc(value@), trivia: t1 };
            quiet_follows(t1, inner.doc);
            commented_follows(t, start, inner);
        },
        Pattern::String { value, .. } => {
            literals_are_quiet(value@);
            let inner = Lowered { doc: crate::literal::string_doc(value@), trivia: t1 };
            quiet_follows(t1, inner.doc);
            commented_follows(t, start, inner);
        },
        Pattern::Variable { name, .. } | Pattern::VarUsage { name, .. } | Pattern::Discard {
            name,
            ..
        } => {
            let inner = Lowered { doc: Doc::text(name@), trivia: t1 };
            quiet_follows(t1, inner.doc);
            commented_follows(t, start, inner);
        },
        Pattern::Assign { name, pattern, .. } => {
            pattern_follows(&**pattern, t1);
            let sub = pattern_low(&**pattern, t1);
            let doc = sub.doc.append(Doc::text(" as "@)).append(Doc::text(name@));
            assert forall|prefix: Seq<char>| #[trigger]
                said(doc, prefix) =~= said(sub.doc, prefix) by {
                reveal_with_fuel(said, 3);
            }
            reshaped(t1, sub, doc);
            commented_follows(t, start, Lowered { doc, trivia: sub.trivia });
        },
        Pattern::List { .. } => {
            list_pattern_follows(pattern, t1);
            commented_follows(t, start, list_pattern_low(pattern, t1));
        },
        Pattern::Constructor { .. } => {
            pattern_constructor_follows(pattern, t1);
            commented_follows(t, start, pattern_constructor_low(pattern, t1));
        },
        Pattern::Tuple { elems, .. } => {
            patterns_follow(elems@, elems@.len() as int, t1);
            let items = patterns_low(elems@, elems@.len() as int, t1);
            wrapped_says(items.docs, Doc::Nil, false);
            let doc = Doc::text("#"@).append(crate::wrap::wrap_args_doc(items.docs)).group();
            assert forall|prefix: Seq<char>| #[trigger]
                said(doc, prefix) =~= crate::order::said_all(items.docs, prefix) by {
                reveal_with_fuel(said, 3);
                assert(said(crate::wrap::wrap_args_doc(items.docs), prefix)
                    =~= crate::order::said_all(items.docs, prefix));
            }
            as_one(t1, items, doc);
            commented_follows(t, start, Lowered { doc, trivia: items.trivia });
        },
        Pattern::BitArray { segments, .. } => {
            pattern_segments_follow(segments@, segments@.len() as int, t1);
            let items = pattern_segments_low(segments@, segments@.len() as int, t1);
            wrapped_says(items.docs, Doc::Nil, false);
            let doc = crate::wrap::bit_array_doc(items.docs, false);
            assert forall|prefix: Seq<char>| #[trigger]
                said(doc, prefix) =~= crate::order::said_all(items.docs, prefix) by {
                assert(said(crate::wrap::bit_array_doc(items.docs, false), prefix)
                    =~= crate::order::said_all(items.docs, prefix));
            }
            as_one(t1, items, doc);
            commented_follows(t, start, Lowered { doc, trivia: items.trivia });
        },
        Pattern::StringPrefix {
            left_side_string,
            left_side_assignment,
            right_side_assignment,
            ..
        } => {
            literals_are_quiet(left_side_string@);
            let left = crate::literal::string_doc(left_side_string@);
            let right = Doc::text(right_side_assignment.spec_name());
            let doc = match left_side_assignment {
                Some(name) => left.append(Doc::text(" as "@)).append(Doc::text(name@)).append(
                    Doc::text(" <> "@),
                ).append(right),
                None => left.append(Doc::text(" <> "@)).append(right),
            };
            assert(crate::order::quiet(doc)) by {
                reveal_with_fuel(said, 6);
            }
            quiet_follows(t1, doc);
            commented_follows(t, start, Lowered { doc, trivia: t1 });
        },
    }
}

/// Whether the pattern and everything in it start at `limit` or before.
pub open spec fn pattern_within(pattern: &Pattern, limit: u32) -> bool
    decreases pattern, 1int,
{
    &&& pattern.span().start <= limit
    &&& match pattern {
        Pattern::Assign { pattern, .. } => pattern_within(&**pattern, limit),
        Pattern::List { elements, tail, .. } => {
            &&& forall|i: int|
                0 <= i < elements@.len() ==> pattern_within(&#[trigger] elements@[i], limit)
            &&& tail matches Some(tail) ==> pattern_within(&**tail, limit)
        },
        Pattern::Constructor { arguments, .. } => forall|i: int|
            0 <= i < arguments@.len() ==> pattern_within(&(#[trigger] arguments@[i]).value, limit),
        Pattern::Tuple { elems, .. } => forall|i: int|
            0 <= i < elems@.len() ==> pattern_within(&#[trigger] elems@[i], limit),
        Pattern::BitArray { segments, .. } => forall|i: int|
            0 <= i < segments@.len() ==> segment_within(&#[trigger] segments@[i], limit),
        _ => true,
    }
}

/// Whether the value of a segment and the values of its sizes start at
/// `limit` or before.
pub open spec fn segment_within(segment: &BitArraySegment<Pattern>, limit: u32) -> bool
    decreases segment, 0int,
{
    &&& pattern_within(&*segment.value, limit)
    &&& forall|i: int|
        0 <= i < segment.options@.len() ==> (#[trigger] segment.options@[i]
            matches BitArrayOption::Size { value, .. } ==> pattern_within(&*value, limit))
}

/// Patterns that start before the first comment pop no comment.
pub proof fn patterns_keep_the_comments(patterns: Seq<Pattern>, n: int, t: Trivia, limit: u32)
    requires
        t.ordered(),
        crate::order::past(t.comments, limit),
        forall|i: int| 0 <= i < patterns.len() ==> pattern_within(&#[trigger] patterns[i], limit),
    ensures
        patterns_low(patterns, n, t).trivia.comments == t.comments,
    decreases patterns, n,
{
    if !(n <= 0 || n > patterns.len()) {
        patterns_keep_the_comments(patterns, n - 1, t, limit);
        patterns_follow(patterns, n - 1, t);
        let before = patterns_low(patterns, n - 1, t);
        pattern_keeps_the_comments(&patterns[n - 1], before.trivia, limit);
    }
}

proof fn pattern_args_keep_the_comments(
    args: Seq<CallArg<Pattern>>,
    n: int,
    t: Trivia,
    limit: u32,
)
    requires
        t.ordered(),
        crate::order::past(t.comments, limit),
        forall|i: int| 0 <= i < args.len() ==> pattern_within(&(#[trigger] args[i]).value, limit),
    ensures
        pattern_args_low(args, n, t).trivia.comments == t.comments,
    decreases args, n,
{
    if !(n <= 0 || n > args.len()) {
        pattern_args_keep_the_comments(args, n - 1, t, limit);
        pattern_args_follow(args, n - 1, t);
        let before = pattern_args_low(args, n - 1, t);
        assert(pattern_within(&args[n - 1].value, limit));
        pattern_keeps_the_comments(&args[n - 1].value, before.trivia, limit);
        let next = pattern_arg_low(&args[n - 1], before.trivia);
        assert(next.trivia == pattern_low(&args[n - 1].value, before.trivia).trivia);
        assert(pattern_args_low(args, n, t).trivia == next.trivia);
    }
}

proof fn pattern_options_keep_the_comments(
    options: Seq<BitArrayOption<Pattern>>,
    n: int,
    t: Trivia,
    limit: u32,
)
    requires
        t.ordered(),
        crate::order::past(t.comments, limit),
        forall|i: int|
            0 <= i < options.len() ==> (#[trigger] options[i] matches BitArrayOption::Size {
                value,
                ..
            } ==> pattern_within(&*value, limit)),
    ensures
        pattern_options_low(options, n, t).trivia.comments == t.comments,
    decreases options, n,
{
    if !(n <= 0 || n > options.len()) {
        pattern_options_keep_the_comments(options, n - 1, t, limit);
        pattern_options_follow(options, n - 1, t);
        let before = pattern_options_low(options, n - 1, t);
        match options[n - 1] {
            BitArrayOption::Size { value, .. } => {
                pattern_keeps_the_comments(&*value, before.trivia, limit);
            },
            _ => {},
        }
    }
}

proof fn pattern_segments_keep_the_comments(
    segments: Seq<BitArraySegment<Pattern>>,
    n: int,
    t: Trivia,
    limit: u32,
)
    requires
        t.ordered(),
        crate::order::past(t.comments, limit),
        forall|i: int| 0 <= i < segments.len() ==> segment_within(&#[trigger] segments[i], limit),
    ensures
        pattern_segments_low(segments, n, t).trivia.comments == t.comments,
    decreases segments, n,
{
    if !(n <= 0 || n > segments.len()) {
        pattern_segments_keep_the_comments(segments, n - 1, t, limit);
        pattern_segments_follow(segments, n - 1, t);
        let before = pattern_segments_low(segments, n - 1, t);
        let segment = &segments[n - 1];
        assert(segment_within(segment, limit));
        pattern_keeps_the_comments(&*segment.value, before.trivia, limit);
        pattern_follows(&*segment.value, before.trivia);
        let value = pattern_low(&*segment.value, before.trivia);
        if segment.options@.len() != 0 {
            pattern_options_keep_the_comments(
                segment.options@,
                segment.options@.len() as int,
                value.trivia,
                limit,
            );
        }
        let next = pattern_segment_low(segment, before.trivia);
        assert(next.trivia.comments == before.trivia.comments);
        assert(pattern_segments_low(segments, n, t).trivia == next.trivia);
    }
}

/// A pattern that starts before the first comment pops no comment.
pub proof fn pattern_keeps_the_comments(pattern: &Pattern, t: Trivia, limit: u32)
    requires
        t.ordered(),
        crate::order::past(t.comments, limit),
        pattern_within(pattern, limit),
    ensures
        pattern_low(pattern, t).trivia.comments == t.comments,
    decreases pattern, 1int,
{
    let start = pattern.span().start;
    let t1 = t.after_comments(start);
    crate::order::commenting_follows(t, start);
    assert(crate::order::past(t.comments, start));
    assert(t1.comments == t.comments);
    match pattern {
        Pattern::Assign { pattern: inner, .. } => {
            pattern_keeps_the_comments(&**inner, t1, limit);
            assert(pattern_low(pattern, t).trivia == pattern_low(&**inner, t1).trivia);
        },
        Pattern::List { elements, tail, .. } => {
            assert(pattern_low(pattern, t).trivia == list_pattern_low(pattern, t1).trivia);
            if elements@.len() == 0 {
                match tail {
                    Some(tail) => {
                        pattern_keeps_the_comments(&**tail, t1, limit);
                    },
                    None => {},
                }
            } else {
                patterns_keep_the_comments(elements@, elements@.len() as int, t1, limit);
                patterns_follow(elements@, elements@.len() as int, t1);
                let items = patterns_low(elements@, elements@.len() as int, t1);
                match tail {
                    None => {},
                    Some(tail) => {
                        let at = tail.span().start;
                        assert(pattern_within(&**tail, limit));
                        crate::order::commenting_follows(items.trivia, at);
                        assert(crate::order::past(items.trivia.comments, at));
                        let after = items.trivia.after_comments(at);
                        assert(after.comments == t.comments);
                        if !(**tail is Discard) {
                            pattern_keeps_the_comments(&**tail, after, limit);
                        }
                    },
                }
            }
        },
        Pattern::Constructor { arguments, with_spread, .. } => {
            assert(pattern_low(pattern, t).trivia == pattern_constructor_low(pattern, t1).trivia);
            if arguments@.len() != 0 {
                pattern_args_keep_the_comments(arguments@, arguments@.len() as int, t1, limit);
                if arguments@.len() == 1 {
                    assert(pattern_within(&arguments@[0].value, limit));
                    pattern_keeps_the_comments(&arguments@[0].value, t1, limit);
                    assert(pattern_arg_low(&arguments@[0], t1).trivia == pattern_low(
                        &arguments@[0].value,
                        t1,
                    ).trivia);
                }
            }
        },
        Pattern::Tuple { elems, .. } => {
            patterns_keep_the_comments(elems@, elems@.len() as int, t1, limit);
            assert(pattern_low(pattern, t).trivia == patterns_low(
                elems@,
                elems@.len() as int,
                t1,
            ).trivia);
        },
        Pattern::BitArray { segments, .. } => {
            pattern_segments_keep_the_comments(segments@, segments@.len() as int, t1, limit);
            assert(pattern_low(pattern, t).trivia == pattern_segments_low(
                segments@,
                segments@.len() as int,
                t1,
            ).trivia);
        },
        _ => {
            assert(pattern_low(pattern, t).trivia == t1);
        },
    }
}

proof fn patterns_take_no_doc_comment(patterns: Seq<Pattern>, n: int, t: Trivia)
    ensures
        patterns_low(patterns, n, t).trivia.doc_comments == t.doc_comments,
    decreases patterns, n,
{
    if !(n <= 0 || n > patterns.len()) {
        patterns_take_no_doc_comment(patterns, n - 1, t);
        let before = patterns_low(patterns, n - 1, t);
        pattern_takes_no_doc_comment(&patterns[n - 1], before.trivia);
    }
}

proof fn pattern_args_take_no_doc_comment(args: Seq<CallArg<Pattern>>, n: int, t: Trivia)
    ensures
        pattern_args_low(args, n, t).trivia.doc_comments == t.doc_comments,
    decreases args, n,
{
    if !(n <= 0 || n > args.len()) {
        pattern_args_take_no_doc_comment(args, n - 1, t);
        let before = pattern_args_low(args, n - 1, t);
        pattern_takes_no_doc_comment(&args[n - 1].value, before.trivia);
        let next = pattern_arg_low(&args[n - 1], before.trivia);
        assert(next.trivia == pattern_low(&args[n - 1].value, before.trivia).trivia);
        assert(pattern_args_low(args, n, t).trivia == next.trivia);
    }
}

proof fn pattern_options_take_no_doc_comment(
    options: Seq<BitArrayOption<Pattern>>,
    n: int,
    t: Trivia,
)
    ensures
        pattern_options_low(options, n, t).trivia.doc_comments == t.doc_comments,
    decreases options, n,
{
    if !(n <= 0 || n > options.len()) {
        pattern_options_take_no_doc_comment(options, n - 1, t);
        let before = pattern_options_low(options, n - 1, t);
        match options[n - 1] {
            BitArrayOption::Size { value, .. } => {
                pattern_takes_no_doc_comment(&*value, before.trivia);
            },
            _ => {},
        }
    }
}

proof fn pattern_segments_take_no_doc_comment(
    segments: Seq<BitArraySegment<Pattern>>,
    n: int,
    t: Trivia,
)
    ensures
        pattern_segments_low(segments, n, t).trivia.doc_comments == t.doc_comments,
    decreases segments, n,
{
    if !(n <= 0 || n > segments.len()) {
        pattern_segments_take_no_doc_comment(segments, n - 1, t);
        let before = pattern_segments_low(segments, n - 1, t);
        let segment = &segments[n - 1];
        pattern_takes_no_doc_comment(&*segment.value, before.trivia);
        let value = pattern_low(&*segment.value, before.trivia);
        if segment.options@.len() != 0 {
            pattern_options_take_no_doc_comment(
                segment.options@,
                segment.options@.len() as int,
                value.trivia,
            );
        }
        let next = pattern_segment_low(segment, before.trivia);
        assert(next.trivia.doc_comments == before.trivia.doc_comments);
        assert(pattern_segments_low(segments, n, t).trivia == next.trivia);
    }
}

/// A pattern leaves the doc comments where they are.
pub proof fn pattern_takes_no_doc_comment(pattern: &Pattern, t: Trivia)
    ensures
        pattern_low(pattern, t).trivia.doc_comments == t.doc_comments,
    decreases pattern, 1int,
{
    let start = pattern.span().start;
    let t1 = t.after_comments(start);
    match pattern {
        Pattern::Assign { pattern: inner, .. } => {
            pattern_takes_no_doc_comment(&**inner, t1);
            assert(pattern_low(pattern, t).trivia == pattern_low(&**inner, t1).trivia);
        },
        Pattern::List { elements, tail, .. } => {
            assert(pattern_low(pattern, t).trivia == list_pattern_low(pattern, t1).trivia);
            if elements@.len() == 0 {
                match tail {
                    Some(tail) => {
                        pattern_takes_no_doc_comment(&**tail, t1);
                    },
                    None => {},
                }
            } else {
                patterns_take_no_doc_comment(elements@, elements@.len() as int, t1);
                let items = patterns_low(elements@, elements@.len() as int, t1);
                match tail {
                    None => {},
                    Some(tail) => {
                        let after = items.trivia.after_comments(tail.span().start);
                        if !(**tail is Discard) {
                            pattern_takes_no_doc_comment(&**tail, after);
                        }
                    },
                }
            }
        },
        Pattern::Constructor { arguments, with_spread, .. } => {
            assert(pattern_low(pattern, t).trivia == pattern_constructor_low(pattern, t1).trivia);
            if arguments@.len() != 0 {
                pattern_args_take_no_doc_comment(arguments@, arguments@.len() as int, t1);
                if arguments@.len() == 1 {
                    pattern_takes_no_doc_comment(&arguments@[0].value, t1);
                    assert(pattern_arg_low(&arguments@[0], t1).trivia == pattern_low(
                        &arguments@[0].value,
                        t1,
                    ).trivia);
                }
            }
        },
        Pattern::Tuple { elems, .. } => {
            patterns_take_no_doc_comment(elems@, elems@.len() as int, t1);
            assert(pattern_low(pattern, t).trivia == patterns_low(
                elems@,
                elems@.len() as int,
                t1,
            ).trivia);
        },
        Pattern::BitArray { segments, .. } => {
            pattern_segments_take_no_doc_comment(segments@, segments@.len() as int, t1);
            assert(pattern_low(pattern, t).trivia == pattern_segments_low(
                segments@,
                segments@.len() as int,
                t1,
            ).trivia);
        },
        _ => {
            assert(pattern_low(pattern, t).trivia == t1);
        },
    }
}

} // verus!
