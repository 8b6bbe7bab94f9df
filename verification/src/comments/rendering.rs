//! What a document holds as owned text buffers stands in its rendering.

use vstd::multiset::Multiset;
use vstd::prelude::*;
use vstd::seq_lib::lemma_multiset_commutative;
use crate::ast::UntypedModule;
use crate::comments::definitions::a_module_prints_every_comment_once;
use crate::comments::{buffers, texts};
use crate::definition::module_low;
use crate::module::module_text;
use crate::pretty::{layout, Doc, Mode, Pending};
use crate::trivia::Trivia;

verus! {

/// The owned text buffers of a document, from left to right.
pub open spec fn buffer_list(doc: Doc) -> Seq<Seq<char>>
    decreases doc,
{
    match doc {
        Doc::String(s) => seq![s],
        Doc::Cons(a, b) => buffer_list(*a) + buffer_list(*b),
        Doc::Nest(_, d) => buffer_list(*d),
        Doc::Group(d) => buffer_list(*d),
        Doc::ForceBreak(d) => buffer_list(*d),
        _ => Seq::empty(),
    }
}

/// Whether the parts stand in the text one after the other, in their order
/// and without overlap.
pub open spec fn holds_in_order(text: Seq<char>, parts: Seq<Seq<char>>) -> bool
    decreases parts.len(),
{
    parts.len() == 0 || exists|i: int|
        #![trigger text.subrange(i, i + parts[0].len())]
        0 <= i && i + parts[0].len() <= text.len() && text.subrange(i, i + parts[0].len())
            == parts[0] && holds_in_order(text.skip(i + parts[0].len()), parts.drop_first())
}

proof fn one_after_the_other(
    first: Seq<char>,
    second: Seq<char>,
    parts: Seq<Seq<char>>,
    more: Seq<Seq<char>>,
)
    requires
        holds_in_order(first, parts),
        holds_in_order(second, more),
    ensures
        holds_in_order(first + second, parts + more),
    decreases parts.len(),
{
    if parts.len() == 0 {
        assert(parts + more =~= more);
        if more.len() > 0 {
            let n = more[0].len() as int;
            let i = choose|i: int|
                #![trigger second.subrange(i, i + more[0].len())]
                0 <= i && i + n <= second.len() && second.subrange(i, i + n) == more[0]
                    && holds_in_order(second.skip(i + n), more.drop_first());
            let k = first.len() + i;
            assert((first + second).subrange(k, k + n) =~= second.subrange(i, i + n));
            assert((first + second).skip(k + n) =~= second.skip(i + n));
        }
    } else {
        let n = parts[0].len() as int;
        let i = choose|i: int|
            #![trigger first.subrange(i, i + parts[0].len())]
            0 <= i && i + n <= first.len() && first.subrange(i, i + n) == parts[0]
                && holds_in_order(first.skip(i + n), parts.drop_first());
        one_after_the_other(first.skip(i + n), second, parts.drop_first(), more);
        assert((first + second).skip(i + n) =~= first.skip(i + n) + second);
        assert((first + second).subrange(i, i + n) =~= first.subrange(i, i + n));
        assert((parts + more).drop_first() =~= parts.drop_first() + more);
        assert((parts + more)[0] == parts[0]);
    }
}

/// Whatever the width, the indentation and the mode, the text that a
/// document is laid out as holds the buffers of the document in their order.
pub proof fn a_layout_shows_every_buffer(
    limit: int,
    width: int,
    indent: nat,
    mode: Mode,
    doc: Doc,
    pending: Seq<Pending>,
)
    ensures
        holds_in_order(layout(limit, width, indent, mode, doc, pending).text, buffer_list(doc)),
    decreases doc,
{
    match doc {
        Doc::String(s) => {
            let text = layout(limit, width, indent, mode, doc, pending).text;
            let parts = buffer_list(doc);
            assert(text == s);
            assert(parts =~= seq![s]);
            assert(parts[0] == s);
            assert(parts.drop_first().len() == 0);
            assert(text.subrange(0int, 0int + parts[0].len()) =~= parts[0]);
            assert(holds_in_order(text.skip(0int + parts[0].len()), parts.drop_first()));
        },
        Doc::Cons(a, b) => {
            let first = layout(limit, width, indent, mode, *a, pending.push(Pending { mode, doc: *b }));
            a_layout_shows_every_buffer(
                limit,
                width,
                indent,
                mode,
                *a,
                pending.push(Pending { mode, doc: *b }),
            );
            a_layout_shows_every_buffer(limit, first.width, indent, mode, *b, pending);
            one_after_the_other(
                first.text,
                layout(limit, first.width, indent, mode, *b, pending).text,
                buffer_list(*a),
                buffer_list(*b),
            );
        },
        Doc::Nest(n, d) => {
            a_layout_shows_every_buffer(
                limit,
                width,
                crate::pretty::next_indent(indent, n),
                mode,
                *d,
                pending,
            );
        },
        Doc::Group(d) => {
            a_layout_shows_every_buffer(limit, width, indent, Mode::Unbroken, *d, pending);
            a_layout_shows_every_buffer(limit, width, indent, Mode::Broken, *d, pending);
        },
        Doc::ForceBreak(d) => {
            a_layout_shows_every_buffer(limit, width, indent, Mode::Broken, *d, pending);
        },
        _ => {},
    }
}

/// The buffers of a document from left to right are its buffers.
pub proof fn the_buffers_in_order(doc: Doc)
    ensures
        buffer_list(doc).to_multiset() =~= buffers(doc),
    decreases doc,
{
    broadcast use vstd::multiset::group_multiset_axioms;

    match doc {
        Doc::String(s) => {
            Seq::<Seq<char>>::empty().to_multiset_ensures();
            assert(seq![s] =~= Seq::<Seq<char>>::empty().push(s));
            assert(Seq::<Seq<char>>::empty().to_multiset() =~= Multiset::empty());
        },
        Doc::Cons(a, b) => {
            the_buffers_in_order(*a);
            the_buffers_in_order(*b);
            lemma_multiset_commutative(buffer_list(*a), buffer_list(*b));
        },
        Doc::Nest(_, d) => {
            the_buffers_in_order(*d);
        },
        Doc::Group(d) => {
            the_buffers_in_order(*d);
        },
        Doc::ForceBreak(d) => {
            the_buffers_in_order(*d);
        },
        _ => {
            Seq::<Seq<char>>::empty().to_multiset_ensures();
            assert(Seq::<Seq<char>>::empty().to_multiset() =~= Multiset::empty());
        },
    }
}

/// The formatted text of a module shows every comment: the texts of the
/// comments, doc comments and module comments of the trivia, each as often as
/// it occurs there and no other, stand in the formatted text one after the
/// other without overlap, in the order in which the document holds them.
pub proof fn formatted_text_shows_every_comment(m: &UntypedModule, t: Trivia)
    ensures
        buffer_list(module_low(m, t).doc).to_multiset() =~= texts(t.comments).add(
            texts(t.doc_comments),
        ).add(texts(t.module_comments)),
        holds_in_order(module_text(m, t), buffer_list(module_low(m, t).doc)),
{
    let doc = module_low(m, t).doc;
    a_module_prints_every_comment_once(m, t);
    the_buffers_in_order(doc);
    a_layout_shows_every_buffer(crate::module::WIDTH as int, 0, 0, Mode::Unbroken, doc, Seq::empty());
}

/// Each of the texts after `prefix`.
pub open spec fn after_prefix(prefix: Seq<char>, texts: Seq<Seq<char>>) -> Seq<Seq<char>> {
    Seq::new(texts.len(), |i: int| prefix + texts[i])
}

/// Whatever the width, the indentation and the mode, the text that a
/// document is laid out as holds what the document says after a prefix, each
/// text right after the prefix, in the order of the document.
pub proof fn a_layout_shows_what_is_said(
    limit: int,
    width: int,
    indent: nat,
    mode: Mode,
    doc: Doc,
    pending: Seq<Pending>,
    prefix: Seq<char>,
)
    ensures
        holds_in_order(
            layout(limit, width, indent, mode, doc, pending).text,
            after_prefix(prefix, crate::order::said(doc, prefix)),
        ),
    decreases doc,
{
    match doc {
        Doc::Cons(a, b) => {
            let first = layout(limit, width, indent, mode, *a, pending.push(Pending { mode, doc: *b }));
            let second = layout(limit, first.width, indent, mode, *b, pending);
            if *b is String && *a == Doc::Text(prefix) {
                let text = b->String_0;
                let all = first.text + second.text;
                let parts = after_prefix(prefix, seq![text]);
                assert(parts[0] =~= prefix + text);
                assert(all.subrange(0int, 0int + parts[0].len()) =~= parts[0]);
                assert(parts.drop_first() =~= Seq::<Seq<char>>::empty());
                assert(holds_in_order(all.skip(0int + parts[0].len()), parts.drop_first()));
            } else {
                a_layout_shows_what_is_said(
                    limit,
                    width,
                    indent,
                    mode,
                    *a,
                    pending.push(Pending { mode, doc: *b }),
                    prefix,
                );
                a_layout_shows_what_is_said(limit, first.width, indent, mode, *b, pending, prefix);
                one_after_the_other(
                    first.text,
                    second.text,
                    after_prefix(prefix, crate::order::said(*a, prefix)),
                    after_prefix(prefix, crate::order::said(*b, prefix)),
                );
                assert(after_prefix(
                    prefix,
                    crate::order::said(*a, prefix) + crate::order::said(*b, prefix),
                ) =~= after_prefix(prefix, crate::order::said(*a, prefix)) + after_prefix(
                    prefix,
                    crate::order::said(*b, prefix),
                ));
            }
        },
        Doc::Nest(n, d) => {
            a_layout_shows_what_is_said(
                limit,
                width,
                crate::pretty::next_indent(indent, n),
                mode,
                *d,
                pending,
                prefix,
            );
        },
        Doc::Group(d) => {
            a_layout_shows_what_is_said(limit, width, indent, Mode::Unbroken, *d, pending, prefix);
            a_layout_shows_what_is_said(limit, width, indent, Mode::Broken, *d, pending, prefix);
        },
        Doc::ForceBreak(d) => {
            a_layout_shows_what_is_said(limit, width, indent, Mode::Broken, *d, pending, prefix);
        },
        _ => {
            assert(after_prefix(prefix, crate::order::said(doc, prefix)) =~= Seq::<
                Seq<char>,
            >::empty());
        },
    }
}

/// Formatting keeps the comments in their order: the comments of the trivia,
/// each as its two slashes and its text, stand in the formatted text of a
/// module one after the other without overlap, in the order of the trivia;
/// and so do the doc comments with their three slashes, and the module
/// comments with their four. The trivia have to be in order, and every `use`
/// calm.
pub proof fn formatted_text_keeps_the_comments_in_order(m: &UntypedModule, t: Trivia)
    requires
        t.ordered(),
        crate::order::definitions::module_calm(m),
    ensures
        holds_in_order(
            module_text(m, t),
            after_prefix("//"@, crate::order::texts_in_order(t.comments)),
        ),
        holds_in_order(
            module_text(m, t),
            after_prefix("///"@, crate::order::texts_in_order(t.doc_comments)),
        ),
        holds_in_order(
            module_text(m, t),
            after_prefix("////"@, crate::order::texts_in_order(t.module_comments)),
        ),
{
    let doc = module_low(m, t).doc;
    crate::order::definitions::a_module_says_the_comments_in_order(m, t);
    let width = crate::module::WIDTH as int;
    a_layout_shows_what_is_said(width, 0, 0, Mode::Unbroken, doc, Seq::empty(), "//"@);
    a_layout_shows_what_is_said(width, 0, 0, Mode::Unbroken, doc, Seq::empty(), "///"@);
    a_layout_shows_what_is_said(width, 0, 0, Mode::Unbroken, doc, Seq::empty(), "////"@);
}

} // verus!
