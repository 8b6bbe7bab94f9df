//! Patterns print the comments they pop.

use vstd::prelude::*;
use crate::ast::{BitArrayOption, BitArraySegment, CallArg, Pattern};
use crate::comments::plain::{buffers_of_an_option, literals_are_plain};
use crate::comments::{
    buffers,
    buffers_of_join,
    buffers_of_wrapped,
    commenting_conserves,
    conserves,
    conserves_all,
    one_more_conserves,
};
use crate::pattern::{
    list_pattern_low,
    pattern_arg_low,
    pattern_args_low,
    pattern_constructor_low,
    pattern_low,
    pattern_options_low,
    pattern_segment_low,
    pattern_segments_low,
    patterns_low,
};
use crate::pretty::Doc;
use crate::segment::option_doc;
use crate::trivia::{Lowered, Trivia};

verus! {

/// A list of patterns holds the comments it pops, each once.
pub proof fn patterns_conserve(patterns: Seq<Pattern>, n: int, t: Trivia)
    ensures
        conserves_all(t, patterns_low(patterns, n, t)),
    decreases patterns, n,
{
    if !(n <= 0 || n > patterns.len()) {
        patterns_conserve(patterns, n - 1, t);
        let before = patterns_low(patterns, n - 1, t);
        pattern_conserves(&patterns[n - 1], before.trivia);
        one_more_conserves(t, before, pattern_low(&patterns[n - 1], before.trivia));
    }
}

proof fn pattern_arg_conserves(arg: &CallArg<Pattern>, t: Trivia)
    ensures
        conserves(t, pattern_arg_low(arg, t)),
    decreases arg, 0int,
{
    reveal_with_fuel(buffers, 4);
    pattern_conserves(&arg.value, t);
}

proof fn pattern_args_conserve(args: Seq<CallArg<Pattern>>, n: int, t: Trivia)
    ensures
        conserves_all(t, pattern_args_low(args, n, t)),
    decreases args, n,
{
    if !(n <= 0 || n > args.len()) {
        pattern_args_conserve(args, n - 1, t);
        let before = pattern_args_low(args, n - 1, t);
        pattern_arg_conserves(&args[n - 1], before.trivia);
        one_more_conserves(t, before, pattern_arg_low(&args[n - 1], before.trivia));
    }
}

proof fn pattern_options_conserve(options: Seq<BitArrayOption<Pattern>>, n: int, t: Trivia)
    ensures
        conserves_all(t, pattern_options_low(options, n, t)),
    decreases options, n,
{
    if !(n <= 0 || n > options.len()) {
        pattern_options_conserve(options, n - 1, t);
        let before = pattern_options_low(options, n - 1, t);
        let inner = match options[n - 1] {
            BitArrayOption::Size { value, .. } => pattern_low(&*value, before.trivia),
            _ => Lowered { doc: Doc::Nil, trivia: before.trivia },
        };
        match options[n - 1] {
            BitArrayOption::Size { value, .. } => {
                pattern_conserves(&*value, before.trivia);
            },
            _ => {},
        }
        buffers_of_an_option(&options[n - 1], inner.doc);
        one_more_conserves(
            t,
            before,
            Lowered { doc: option_doc(&options[n - 1], inner.doc), trivia: inner.trivia },
        );
    }
}

proof fn pattern_segment_conserves(segment: &BitArraySegment<Pattern>, t: Trivia)
    ensures
        conserves(t, pattern_segment_low(segment, t)),
    decreases segment, 0int,
{
    reveal_with_fuel(buffers, 4);
    pattern_conserves(&*segment.value, t);
    if segment.options@.len() != 0 {
        let value = pattern_low(&*segment.value, t);
        pattern_options_conserve(segment.options@, segment.options@.len() as int, value.trivia);
        buffers_of_join(
            pattern_options_low(
                segment.options@,
                segment.options@.len() as int,
                value.trivia,
            ).docs,
            Doc::text("-"@),
        );
    }
}

proof fn pattern_segments_conserve(segments: Seq<BitArraySegment<Pattern>>, n: int, t: Trivia)
    ensures
        conserves_all(t, pattern_segments_low(segments, n, t)),
    decreases segments, n,
{
    if !(n <= 0 || n > segments.len()) {
        pattern_segments_conserve(segments, n - 1, t);
        let before = pattern_segments_low(segments, n - 1, t);
        pattern_segment_conserves(&segments[n - 1], before.trivia);
        one_more_conserves(t, before, pattern_segment_low(&segments[n - 1], before.trivia));
    }
}

proof fn list_pattern_conserves(pattern: &Pattern, t: Trivia)
    ensures
        conserves(t, list_pattern_low(pattern, t)),
    decreases pattern, 0int,
{
    reveal_with_fuel(buffers, 10);
    match pattern {
        Pattern::List { elements, tail, .. } => {
            if elements@.len() == 0 {
                match tail {
                    Some(tail) => {
                        pattern_conserves(&**tail, t);
                    },
                    None => {},
                }
            } else {
                patterns_conserve(elements@, elements@.len() as int, t);
                let items = patterns_low(elements@, elements@.len() as int, t);
                buffers_of_join(items.docs, Doc::break_(","@, ", "@));
                match tail {
                    None => {},
                    Some(tail) => {
                        let start = tail.span().start;
                        let after = items.trivia.after_comments(start);
                        let rest = if **tail is Discard {
                            Lowered { doc: Doc::text(".."@), trivia: after }
                        } else {
                            let inner = pattern_low(&**tail, after);
                            Lowered { doc: Doc::text(".."@).append(inner.doc), trivia: inner.trivia }
                        };
                        if !(**tail is Discard) {
                            pattern_conserves(&**tail, after);
                        }
                        commenting_conserves(items.trivia, start);
                    },
                }
            }
        },
        _ => {},
    }
}

proof fn pattern_constructor_conserves(pattern: &Pattern, t: Trivia)
    ensures
        conserves(t, pattern_constructor_low(pattern, t)),
    decreases pattern, 0int,
{
    reveal_with_fuel(buffers, 10);
    match pattern {
        Pattern::Constructor { arguments, with_spread, .. } => {
            if arguments@.len() == 0 {
            } else if *with_spread {
                pattern_args_conserve(arguments@, arguments@.len() as int, t);
                buffers_of_wrapped(
                    pattern_args_low(arguments@, arguments@.len() as int, t).docs,
                    Doc::Nil,
                    false,
                );
            } else if arguments@.len() == 1 && arguments@[0].value.breakable() {
                pattern_arg_conserves(&arguments@[0], t);
            } else {
                pattern_args_conserve(arguments@, arguments@.len() as int, t);
                buffers_of_wrapped(
                    pattern_args_low(arguments@, arguments@.len() as int, t).docs,
                    Doc::Nil,
                    false,
                );
            }
        },
        _ => {},
    }
}

/// A pattern prints the comments it pops, each once.
pub proof fn pattern_conserves(pattern: &Pattern, t: Trivia)
    ensures
        conserves(t, pattern_low(pattern, t)),
    decreases pattern, 1int,
{
    reveal_with_fuel(buffers, 10);
    let start = pattern.span().start;
    let t1 = t.after_comments(start);
    commenting_conserves(t, start);
    match pattern {
        Pattern::Int { value, .. } | Pattern::Float { value, .. } | Pattern::String {
            value,
            ..
        } => {
            literals_are_plain(value@);
        },
        Pattern::Variable { .. } | Pattern::VarUsage { .. } | Pattern::Discard { .. } => {},
        Pattern::Assign { pattern, .. } => {
            pattern_conserves(&**pattern, t1);
        },
        Pattern::List { .. } => {
            list_pattern_conserves(pattern, t1);
        },
        Pattern::Constructor { .. } => {
            pattern_constructor_conserves(pattern, t1);
        },
        Pattern::Tuple { elems, .. } => {
            patterns_conserve(elems@, elems@.len() as int, t1);
            buffers_of_wrapped(
                patterns_low(elems@, elems@.len() as int, t1).docs,
                Doc::Nil,
                false,
            );
        },
        Pattern::BitArray { segments, .. } => {
            pattern_segments_conserve(segments@, segments@.len() as int, t1);
            buffers_of_wrapped(
                pattern_segments_low(segments@, segments@.len() as int, t1).docs,
                Doc::Nil,
                false,
            );
        },
        Pattern::StringPrefix { left_side_string, .. } => {
            literals_are_plain(left_side_string@);
        },
    }
}

} // verus!
