//! Definitions say the comments they pop in their order, and a module says
//! them all.

use vstd::prelude::*;
use crate::ast::{
    CustomType,
    Definition,
    Function,
    RecordConstructor,
    RecordConstructorArg,
    TargetedDefinition,
    UntypedModule,
};
use crate::comments::definitions::{
    a_concat_is_not_empty,
    a_targeted_definition_is_not_empty,
    everything_is_within_reach,
    interspersed_starts_alike,
    the_first_definition_comes_first,
};
use crate::definition::{
    attributes_doc,
    constructor_arg_low,
    constructor_args_low,
    constructors_low,
    custom_type_low,
    definition_low,
    definitions_low,
    deprecation_doc,
    doc_comment_docs,
    doc_comments_doc,
    doc_comments_low,
    function_low,
    import_doc,
    is_stub,
    kept,
    module_constant_doc,
    module_low,
    name_docs,
    prefixed_docs,
    record_constructor_low,
    targeted_doc,
    targeted_low,
    type_alias_doc,
    type_keyword,
};
use crate::expr::{fn_args_low, statements_low};
use crate::order::exprs::{fn_args_follow, statements_calm, statements_follow};
use crate::order::{
    a_separator_follows,
    after_a_pop,
    after_blank_lines,
    as_one,
    blank_lines_follow_all,
    commented_follows,
    commenting_follows,
    concat_says,
    follows,
    follows_all,
    join_says,
    no_bare_buffer,
    none_follows,
    one_after_the_other,
    one_more_follows,
    plain_is_quiet,
    popped_in_order,
    popping_keeps_the_order,
    prefixes_differ,
    printing_keeps_the_order,
    quiet_for_all,
    reshaped,
    said,
    said_all,
    said_from_the_front,
    said_of_pushed,
    said_step_by_step,
    silent_follows,
    texts_in_order,
    the_rest_is_past,
    trailing_follows,
    types_say_nothing,
    wrapped_says,
};
use crate::pretty::{interspersed, Doc, INDENT};
use crate::trivia::{
    comment_doc,
    popped_starts_with_a_comment,
    pops_keep_the_order,
    printed,
    printed_at_end,
    printed_from,
    starts_of,
    Lowered,
    LoweredAll,
    Note,
    Trivia,
};
use crate::types::type_doc;
use crate::wrap::{pub_doc, wrap_args_doc};

verus! {

/// Whether in a function every `use` is calm.
pub open spec fn function_calm(f: &Function) -> bool {
    statements_calm(f.body@)
}

/// Whether in a definition every `use` is calm.
pub open spec fn definition_calm(d: &Definition) -> bool {
    d matches Definition::Function(f) ==> function_calm(f)
}

/// Whether in a module every `use` is calm.
pub open spec fn module_calm(m: &UntypedModule) -> bool {
    forall|i: int|
        0 <= i < m.definitions@.len() ==> definition_calm(
            &(#[trigger] m.definitions@[i]).definition,
        )
}

proof fn said_of_doc_comments(items: Seq<Option<Seq<char>>>)
    ensures
        said_all(doc_comment_docs(items), "///"@) =~= popped_in_order(items),
        said_all(doc_comment_docs(items), "//"@) =~= Seq::empty(),
        said_all(doc_comment_docs(items), "////"@) =~= Seq::empty(),
        no_bare_buffer(doc_comment_docs(items)),
    decreases items.len(),
{
    prefixes_differ();
    reveal_with_fuel(said, 3);
    if items.len() > 0 {
        said_of_doc_comments(items.drop_first());
        assert(doc_comment_docs(items).drop_first() =~= doc_comment_docs(items.drop_first()));
        said_from_the_front(doc_comment_docs(items), "//"@);
        said_from_the_front(doc_comment_docs(items), "///"@);
        said_from_the_front(doc_comment_docs(items), "////"@);
        assert forall|i: int| 0 <= i < doc_comment_docs(items).len() implies !(
        #[trigger] doc_comment_docs(items)[i] is String) by {
            if i > 0 {
                assert(doc_comment_docs(items)[i] == doc_comment_docs(items.drop_first())[i - 1]);
            }
        }
    }
}

/// Popping doc comments and printing them keeps the order.
proof fn doc_comments_follow(t: Trivia, limit: u32)
    requires
        t.ordered(),
    ensures
        follows(t, doc_comments_low(t, limit)),
{
    pops_keep_the_order(t, limit);
    popping_keeps_the_order(t.doc_comments, t.empty_lines, limit, false);
    the_rest_is_past(t.doc_comments, limit);
    let items = t.doc_comments_upto(limit);
    said_of_doc_comments(items);
    assert(t.comments.skip(0) =~= t.comments);
    let doc = doc_comments_doc(items);
    if items.len() != 0 {
        assert(quiet_for_all(Doc::line())) by {
            said_step_by_step();
        }
        join_says(doc_comment_docs(items), Doc::line());
        assert forall|prefix: Seq<char>| #[trigger]
            said(doc, prefix) =~= said_all(doc_comment_docs(items), prefix) by {
            said_step_by_step();
            assert(said(Doc::join(doc_comment_docs(items), Doc::line()), prefix) =~= said_all(
                doc_comment_docs(items),
                prefix,
            ));
        }
    }
}

proof fn constructor_arg_follows(arg: &RecordConstructorArg, t: Trivia)
    requires
        t.ordered(),
    ensures
        follows(t, constructor_arg_low(arg, t)),
{
    let start = arg.location.start;
    after_a_pop(t, start);
    let t1 = t.after_comments(start);
    doc_comments_follow(t1, start);
    let docs = doc_comments_low(t1, start);
    types_say_nothing(&arg.ast);
    let plain_arg = match arg.label {
        Some(label) => Doc::text(label@).append(Doc::text(": "@)).append(type_doc(&arg.ast)),
        None => type_doc(&arg.ast),
    };
    let doc = docs.doc.append(plain_arg).group();
    assert forall|prefix: Seq<char>| #[trigger] said(doc, prefix) =~= said(docs.doc, prefix) by {
        said_step_by_step();
    }
    reshaped(t1, docs, doc);
    commented_follows(t, start, Lowered { doc, trivia: docs.trivia });
}

proof fn constructor_args_follow(args: Seq<RecordConstructorArg>, n: int, t: Trivia)
    requires
        t.ordered(),
    ensures
        follows_all(t, constructor_args_low(args, n, t)),
    decreases n,
{
    if !(n <= 0 || n > args.len()) {
        constructor_args_follow(args, n - 1, t);
        let before = constructor_args_low(args, n - 1, t);
        constructor_arg_follows(&args[n - 1], before.trivia);
        one_more_follows(t, before, constructor_arg_low(&args[n - 1], before.trivia));
    } else {
        none_follows(t);
    }
}

/// A record constructor says the comments it pops in their order.
pub proof fn record_constructor_follows(constructor: &RecordConstructor, t: Trivia)
    requires
        t.ordered(),
    ensures
        follows(t, record_constructor_low(constructor, t)),
{
    let start = constructor.location.start;
    after_a_pop(t, start);
    let t1 = t.after_comments(start);
    doc_comments_follow(t1, start);
    let docs = doc_comments_low(t1, start);
    if constructor.arguments@.len() == 0 {
        let doc = docs.doc.append(Doc::text(constructor.name@)).group();
        assert forall|prefix: Seq<char>| #[trigger]
            said(doc, prefix) =~= said(docs.doc, prefix) by {
            said_step_by_step();
        }
        reshaped(t1, docs, doc);
        commented_follows(t, start, Lowered { doc, trivia: docs.trivia });
    } else {
        constructor_args_follow(
            constructor.arguments@,
            constructor.arguments@.len() as int,
            docs.trivia,
        );
        let args = constructor_args_low(
            constructor.arguments@,
            constructor.arguments@.len() as int,
            docs.trivia,
        );
        wrapped_says(args.docs, Doc::Nil, false);
        let inner = Doc::text(constructor.name@).append(wrap_args_doc(args.docs)).group();
        assert forall|prefix: Seq<char>| #[trigger]
            said(inner, prefix) =~= said_all(args.docs, prefix) by {
            said_step_by_step();
            assert(said(wrap_args_doc(args.docs), prefix) =~= said_all(args.docs, prefix));
        }
        as_one(docs.trivia, args, inner);
        let doc = docs.doc.append(inner).group();
        assert forall|prefix: Seq<char>| #[trigger]
            said(doc, prefix) =~= said(docs.doc, prefix) + said(inner, prefix) by {
            said_step_by_step();
        }
        one_after_the_other(t1, docs, Lowered { doc: inner, trivia: args.trivia }, doc);
        commented_follows(t, start, Lowered { doc, trivia: args.trivia });
    }
}

proof fn constructors_follow(constructors: Seq<RecordConstructor>, n: int, t: Trivia)
    requires
        t.ordered(),
    ensures
        follows_all(t, constructors_low(constructors, n, t)),
    decreases n,
{
    if !(n <= 0 || n > constructors.len()) {
        constructors_follow(constructors, n - 1, t);
        let before = constructors_low(constructors, n - 1, t);
        let start = constructors[n - 1].location.start;
        blank_lines_follow_all(t, before, start);
        let t1 = before.trivia.after_empty_lines(start);
        record_constructor_follows(&constructors[n - 1], t1);
        let next = record_constructor_low(&constructors[n - 1], t1);
        let separator = if before.trivia.blank_upto(start) {
            Doc::lines(2)
        } else {
            Doc::line()
        };
        let doc = separator.append(next.doc);
        assert forall|prefix: Seq<char>| #[trigger] said(doc, prefix) =~= said(next.doc, prefix) by {
            said_step_by_step();
        }
        reshaped(t1, next, doc);
        one_more_follows(
            t,
            LoweredAll { docs: before.docs, trivia: t1 },
            Lowered { doc, trivia: next.trivia },
        );
    } else {
        none_follows(t);
    }
}

/// A custom type says the comments it pops in their order.
pub proof fn custom_type_follows(ct: &CustomType, t: Trivia)
    requires
        t.ordered(),
    ensures
        follows(t, custom_type_low(ct, t)),
{
    after_a_pop(t, ct.location.end);
    let t1 = t.after_empty_lines(ct.location.end);
    crate::comments::definitions::custom_type_head_is_plain(ct);
    let name = if ct.parameters@.len() == 0 {
        Doc::text(ct.name@)
    } else {
        Doc::text(ct.name@).append(wrap_args_doc(name_docs(ct.parameters@))).group()
    };
    let head = deprecation_doc(&ct.deprecation).append(pub_doc(ct.public)).append(
        Doc::text(type_keyword(ct.opaque)),
    ).append(name);
    plain_is_quiet(head);
    silent_follows(t1, head);
    if ct.constructors@.len() == 0 {
        after_blank_lines(t, ct.location.end, Lowered { doc: head, trivia: t1 });
    } else {
        constructors_follow(ct.constructors@, ct.constructors@.len() as int, t1);
        let constructors = constructors_low(ct.constructors@, ct.constructors@.len() as int, t1);
        concat_says(constructors.docs);
        let inner = Doc::concat(constructors.docs);
        as_one(t1, constructors, inner);
        trailing_follows(t1, Lowered { doc: inner, trivia: constructors.trivia }, ct.end_position);
        let body = match printed(constructors.trivia.comments_upto(ct.end_position), false) {
            Some(comments) => inner.append(Doc::line()).append(comments),
            None => inner,
        };
        let doc = head.append(Doc::text(" {"@)).append(body.nest(INDENT as nat).group()).append(
            Doc::line(),
        ).append(Doc::text("}"@));
        assert forall|prefix: Seq<char>| #[trigger] said(doc, prefix) =~= said(body, prefix) by {
            said_step_by_step();
        }
        reshaped(
            t1,
            Lowered { doc: body, trivia: constructors.trivia.after_comments(ct.end_position) },
            doc,
        );
        after_blank_lines(
            t,
            ct.location.end,
            Lowered { doc, trivia: constructors.trivia.after_comments(ct.end_position) },
        );
    }
}

/// A function says the comments it pops in their order.
pub proof fn function_follows(f: &Function, t: Trivia)
    requires
        t.ordered(),
        function_calm(f),
    ensures
        follows(t, function_low(f, t)),
{
    fn_args_follow(f.arguments@, f.arguments@.len() as int, t);
    let args = fn_args_low(f.arguments@, f.arguments@.len() as int, t);
    wrapped_says(args.docs, Doc::Nil, f.public);
    let signature = pub_doc(f.public).append(Doc::text("fn "@)).append(Doc::text(f.name@)).append(
        wrap_args_doc(args.docs),
    );
    let signature = (match f.return_annotation {
        Some(annotation) => signature.append(Doc::text(" -> "@)).append(type_doc(&annotation)),
        None => signature,
    }).group();
    let head = attributes_doc(f).append(signature);
    crate::comments::definitions::attributes_are_plain(f);
    plain_is_quiet(attributes_doc(f));
    match f.return_annotation {
        Some(annotation) => {
            types_say_nothing(&annotation);
        },
        None => {},
    }
    assert forall|prefix: Seq<char>| #[trigger] said(head, prefix) =~= said_all(args.docs, prefix) by {
        said_step_by_step();
        assert(said(wrap_args_doc(args.docs), prefix) =~= said_all(args.docs, prefix));
        assert(said(pub_doc(f.public), prefix) =~= Seq::empty());
    }
    as_one(t, args, head);
    if is_stub(f.body@) {
        assert(function_low(f, t) == (Lowered { doc: head, trivia: args.trivia }));
    } else {
        statements_follow(f.body@, args.trivia);
        let body = statements_low(f.body@, args.trivia);
        trailing_follows(args.trivia, body, f.end_position);
        let inner = match printed(body.trivia.comments_upto(f.end_position), false) {
            Some(comments) => body.doc.append(Doc::line()).append(comments),
            None => body.doc,
        };
        let doc = head.append(Doc::text(" {"@)).append(
            Doc::line().append(inner).nest(INDENT as nat).group(),
        ).append(Doc::line()).append(Doc::text("}"@));
        assert forall|prefix: Seq<char>| #[trigger]
            said(doc, prefix) =~= said(head, prefix) + said(inner, prefix) by {
            said_step_by_step();
        }
        one_after_the_other(
            t,
            Lowered { doc: head, trivia: args.trivia },
            Lowered { doc: inner, trivia: body.trivia.after_comments(f.end_position) },
            doc,
        );
        assert(function_low(f, t) == (Lowered {
            doc,
            trivia: body.trivia.after_comments(f.end_position),
        }));
    }
}

/// A definition says the comments it pops in their order.
pub proof fn definition_follows(d: &Definition, t: Trivia)
    requires
        t.ordered(),
        definition_calm(d),
    ensures
        follows(t, definition_low(d, t)),
{
    match d {
        Definition::Function(f) => {
            function_follows(f, t);
        },
        Definition::TypeAlias(a) => {
            crate::comments::definitions::type_aliases_are_plain(
                a.public,
                a.alias@,
                a.parameters@,
                &a.type_ast,
                &a.deprecation,
            );
            let doc = type_alias_doc(a.public, a.alias@, a.parameters@, &a.type_ast, &a.deprecation);
            plain_is_quiet(doc);
            silent_follows(t, doc);
        },
        Definition::CustomType(ct) => {
            custom_type_follows(ct, t);
        },
        Definition::Import(i) => {
            crate::comments::definitions::imports_are_plain(i);
            plain_is_quiet(import_doc(i));
            silent_follows(t, import_doc(i));
        },
        Definition::ModuleConstant(c) => {
            crate::comments::definitions::module_constants_are_plain(c);
            plain_is_quiet(module_constant_doc(c));
            silent_follows(t, module_constant_doc(c));
        },
    }
}

proof fn targeted_follows(d: &TargetedDefinition, t: Trivia)
    requires
        t.ordered(),
        definition_calm(&d.definition),
    ensures
        follows(t, targeted_low(d, t)),
{
    let start = d.definition.span().start;
    after_a_pop(t, start);
    let t1 = t.after_comments(start);
    doc_comments_follow(t1, start);
    let docs = doc_comments_low(t1, start);
    definition_follows(&d.definition, docs.trivia);
    let inner = definition_low(&d.definition, docs.trivia);
    let documented = docs.doc.append(inner.doc.group()).group();
    assert forall|prefix: Seq<char>| #[trigger]
        said(documented, prefix) =~= said(docs.doc, prefix) + said(inner.doc, prefix) by {
        said_step_by_step();
    }
    one_after_the_other(t1, docs, inner, documented);
    let shown = targeted_doc(d.target, documented);
    assert forall|prefix: Seq<char>| #[trigger] said(shown, prefix) =~= said(documented, prefix) by {
        said_step_by_step();
    }
    reshaped(t1, Lowered { doc: documented, trivia: inner.trivia }, shown);
    commented_follows(t, start, Lowered { doc: shown, trivia: inner.trivia });
}

proof fn definitions_follow(definitions: Seq<TargetedDefinition>, n: int, t: Trivia)
    requires
        t.ordered(),
        forall|i: int|
            0 <= i < definitions.len() ==> definition_calm(&(#[trigger] definitions[i]).definition),
    ensures
        follows_all(t, definitions_low(definitions, n, t)),
    decreases n,
{
    if !(n <= 0 || n > definitions.len()) {
        definitions_follow(definitions, n - 1, t);
        let before = definitions_low(definitions, n - 1, t);
        assert(definition_calm(&definitions[n - 1].definition));
        targeted_follows(&definitions[n - 1], before.trivia);
        let next = targeted_low(&definitions[n - 1], before.trivia);
        assert(quiet_for_all(Doc::lines(1)) && quiet_for_all(Doc::lines(2))) by {
            said_step_by_step();
        }
        a_separator_follows(t, before, Doc::lines(1));
        a_separator_follows(t, before, Doc::lines(2));
        let docs = if n == 1 {
            before.docs
        } else if definitions[n - 2].definition is Import && definitions[n - 1].definition
            is Import {
            before.docs.push(Doc::lines(1))
        } else {
            before.docs.push(Doc::lines(2))
        };
        one_more_follows(t, LoweredAll { docs, trivia: before.trivia }, next);
        assert(definitions_low(definitions, n, t) == (LoweredAll {
            docs: docs.push(next.doc),
            trivia: next.trivia,
        }));
    } else {
        none_follows(t);
    }
}

/// What the comments printed after a prefix say after a prefix.
proof fn said_of_prefixed(prefix: Seq<char>, notes: Seq<Note>, other: Seq<char>)
    requires
        other.len() != prefix.len(),
    ensures
        said_all(prefixed_docs(prefix, notes), prefix) =~= texts_in_order(notes),
        said_all(prefixed_docs(prefix, notes), other) =~= Seq::empty(),
        no_bare_buffer(prefixed_docs(prefix, notes)),
    decreases notes.len(),
{
    reveal_with_fuel(said, 3);
    if notes.len() > 0 {
        said_of_prefixed(prefix, notes.drop_first(), other);
        let docs = prefixed_docs(prefix, notes);
        assert(docs.drop_first() =~= prefixed_docs(prefix, notes.drop_first()));
        said_from_the_front(docs, prefix);
        said_from_the_front(docs, other);
        assert(texts_in_order(notes).drop_first() =~= texts_in_order(notes.drop_first()));
        assert forall|i: int| 0 <= i < docs.len() implies !(#[trigger] docs[i] is String) by {
            if i > 0 {
                assert(docs[i] == prefixed_docs(prefix, notes.drop_first())[i - 1]);
            }
        }
    }
}

/// The document of a join of parts, some of which may have been dropped for
/// being empty, says what the parts say.
proof fn said_of_kept(docs: Seq<Doc>, doc: Doc, prefix: Seq<char>)
    requires
        doc.is_empty() ==> said(doc, prefix) =~= Seq::empty(),
        no_bare_buffer(docs),
        !(doc is String),
    ensures
        said_all(kept(docs, doc), prefix) =~= said_all(docs, prefix) + said(doc, prefix),
        no_bare_buffer(kept(docs, doc)),
{
    said_of_pushed(docs, doc, prefix);
}

/// Formatting a module says every comment in its place: what the document
/// of a module says after `//` are the comments of the trivia in their order,
/// what it says after `///` are the doc comments in their order, and what it
/// says after `////` are the module comments in their order. The trivia have
/// to be in order, and every `use` calm.
pub proof fn a_module_says_the_comments_in_order(m: &UntypedModule, t: Trivia)
    requires
        t.ordered(),
        module_calm(m),
    ensures
        said(module_low(m, t).doc, "//"@) =~= texts_in_order(t.comments),
        said(module_low(m, t).doc, "///"@) =~= texts_in_order(t.doc_comments),
        said(module_low(m, t).doc, "////"@) =~= texts_in_order(t.module_comments),
{
    prefixes_differ();
    let n = m.definitions@.len() as int;
    let definitions = definitions_low(m.definitions@, n, t);
    let rest = definitions.trivia;
    definitions_follow(m.definitions@, n, t);

    let definitions_doc = Doc::concat(definitions.docs);
    concat_says(definitions.docs);
    if n > 0 {
        the_first_definition_comes_first(m.definitions@, n, t);
        a_targeted_definition_is_not_empty(&m.definitions@[0], t);
        a_concat_is_not_empty(definitions.docs);
    }

    let doc_comments = Doc::join(prefixed_docs("///"@, rest.doc_comments), Doc::line());
    said_of_prefixed("///"@, rest.doc_comments, "//"@);
    said_of_prefixed("///"@, rest.doc_comments, "////"@);
    assert(quiet_for_all(Doc::line())) by {
        said_step_by_step();
    }
    join_says(prefixed_docs("///"@, rest.doc_comments), Doc::line());

    let popped = rest.comments_upto(u32::MAX);
    commenting_follows(rest, u32::MAX);
    popping_keeps_the_order(rest.comments, rest.empty_lines, u32::MAX, true);
    everything_is_within_reach(starts_of(rest.comments));
    assert(rest.comments.take(rest.comments.len() as int) =~= rest.comments);
    printing_keeps_the_order(popped, false);
    let comments = match printed_at_end(popped) {
        Some(comments) => comments,
        None => Doc::Nil,
    };
    assert(said(comments, "//"@) =~= texts_in_order(rest.comments)) by {
        said_step_by_step();
    }
    assert(said(comments, "///"@) =~= Seq::<Seq<char>>::empty()) by {
        said_step_by_step();
    }
    assert(said(comments, "////"@) =~= Seq::<Seq<char>>::empty()) by {
        said_step_by_step();
    }

    let module_comments = if rest.module_comments.len() != 0 {
        Doc::join(prefixed_docs("////"@, rest.module_comments), Doc::line()).append(Doc::line())
    } else {
        Doc::Nil
    };
    said_of_prefixed("////"@, rest.module_comments, "//"@);
    said_of_prefixed("////"@, rest.module_comments, "///"@);
    join_says(prefixed_docs("////"@, rest.module_comments), Doc::line());
    assert(said(module_comments, "////"@) =~= texts_in_order(rest.module_comments)) by {
        said_step_by_step();
    }
    assert(said(module_comments, "//"@) =~= Seq::<Seq<char>>::empty()) by {
        said_step_by_step();
    }
    assert(said(module_comments, "///"@) =~= Seq::<Seq<char>>::empty()) by {
        said_step_by_step();
    }
    assert(!module_comments.is_empty() || rest.module_comments.len() == 0) by {
        reveal_with_fuel(Doc::is_empty, 2);
    }
    assert(doc_comments.is_empty() ==> rest.doc_comments.len() == 0) by {
        if rest.doc_comments.len() > 0 {
            let docs = prefixed_docs("///"@, rest.doc_comments);
            interspersed_starts_alike(docs, Doc::line());
            assert(!docs[0].is_empty()) by {
                reveal_with_fuel(Doc::is_empty, 2);
            }
            a_concat_is_not_empty(interspersed(docs, Doc::line()));
        }
    }
    assert(comments.is_empty() ==> popped.len() == 0) by {
        if popped.len() > 0 {
            popped_starts_with_a_comment(rest.comments, rest.empty_lines, u32::MAX, true);
            let docs = printed_from(popped, 0, false);
            assert(docs.len() > 0 && docs[0] == comment_doc(popped[0]->0));
            assert(!docs[0].is_empty()) by {
                reveal_with_fuel(Doc::is_empty, 2);
            }
            a_concat_is_not_empty(docs);
            reveal_with_fuel(Doc::is_empty, 2);
        }
    }
    assert(texts_in_order(Seq::<Note>::empty()) =~= Seq::<Seq<char>>::empty());

    let none = Seq::<Doc>::empty();
    let one = kept(none, module_comments);
    let two = kept(one, definitions_doc);
    let three = kept(two, doc_comments);
    let parts = kept(three, comments);
    let doc = Doc::join(parts, Doc::line()).append(Doc::line());
    assert(module_low(m, t).doc == doc);
    assert forall|prefix: Seq<char>|
        prefix == "//"@ || prefix == "///"@ || prefix == "////"@ implies #[trigger] said(
        doc,
        prefix,
    ) =~= said(module_comments, prefix) + said(definitions_doc, prefix) + said(
        doc_comments,
        prefix,
    ) + said(comments, prefix) by {
        assert(said_all(none, prefix) =~= Seq::empty());
        assert(said(definitions_doc, prefix) =~= said_all(definitions.docs, prefix));
        assert(said(doc_comments, prefix) =~= said_all(
            prefixed_docs("///"@, rest.doc_comments),
            prefix,
        ));
        said_of_kept(none, module_comments, prefix);
        said_of_kept(one, definitions_doc, prefix);
        said_of_kept(two, doc_comments, prefix);
        said_of_kept(three, comments, prefix);
        join_says(parts, Doc::line());
        assert(said(Doc::join(parts, Doc::line()), prefix) =~= said_all(parts, prefix));
        said_step_by_step();
    }
    assert(said(definitions_doc, "//"@) =~= said_all(definitions.docs, "//"@));
    assert(said(definitions_doc, "///"@) =~= said_all(definitions.docs, "///"@));
    assert(said(definitions_doc, "////"@) =~= said_all(definitions.docs, "////"@));
    assert(said(doc_comments, "///"@) =~= texts_in_order(rest.doc_comments));
    assert(said(doc_comments, "//"@) =~= Seq::<Seq<char>>::empty());
    assert(said(doc_comments, "////"@) =~= Seq::<Seq<char>>::empty());
}

} // verus!
