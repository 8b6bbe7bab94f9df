//! Definitions print the comments they pop, and a module prints them all.

use vstd::multiset::Multiset;
use vstd::prelude::*;
use crate::ast::{
    CustomType,
    Definition,
    Deprecation,
    Function,
    Import,
    ModuleConstant,
    RecordConstructor,
    RecordConstructorArg,
    TargetedDefinition,
    TypeAst,
    UnqualifiedImport,
    UntypedModule,
};
use crate::comments::exprs::{fn_args_conserve, statements_conserve};
use crate::comments::plain::{constants_are_plain, plain, types_are_plain};
use crate::comments::{
    all_buffers,
    blank_lines_conserve,
    buffers,
    buffers_from_the_front,
    buffers_of_concat,
    buffers_of_join,
    buffers_of_pushed,
    buffers_of_wrapped,
    commenting_conserves,
    conserves,
    conserves_all,
    one_more_conserves,
    popped_texts,
    popping_hands_out_the_comments,
    printing_prints_the_comments,
    texts,
};
use crate::definition::{
    attributes_doc,
    constructor_arg_low,
    constructor_args_low,
    constructors_low,
    custom_type_low,
    definition_low,
    definitions_low,
    deprecation_doc,
    doc_comment_docs,
    doc_comments_doc,
    doc_comments_low,
    function_low,
    import_doc,
    is_stub,
    kept,
    module_constant_doc,
    module_low,
    name_docs,
    prefixed_docs,
    record_constructor_low,
    targeted_low,
    type_alias_doc,
    unqualified_docs,
};
use crate::expr::{fn_args_low, statements_low};
use crate::imports::sorted_by_name;
use crate::pretty::{interspersed, Doc};
use crate::trivia::{
    comment_doc,
    popped_starts_with_a_comment,
    printed,
    printed_at_end,
    printed_from,
    reach,
    starts_of,
    Lowered,
    Note,
    Trivia,
};

verus! {

proof fn names_are_plain(names: Seq<String>)
    ensures
        all_buffers(name_docs(names)) =~= Multiset::empty(),
    decreases names.len(),
{
    if names.len() > 0 {
        names_are_plain(names.drop_last());
        assert(name_docs(names).drop_last() =~= name_docs(names.drop_last()));
    }
}

proof fn unqualified_are_plain(types: Seq<UnqualifiedImport>, values: Seq<UnqualifiedImport>)
    ensures
        all_buffers(unqualified_docs(types, values)) =~= Multiset::empty(),
    decreases types.len() + values.len(),
{
    reveal_with_fuel(buffers, 5);
    let docs = unqualified_docs(types, values);
    if values.len() > 0 {
        unqualified_are_plain(types, values.drop_last());
        assert(docs.drop_last() =~= unqualified_docs(types, values.drop_last()));
    } else if types.len() > 0 {
        unqualified_are_plain(types.drop_last(), values);
        assert(docs.drop_last() =~= unqualified_docs(types.drop_last(), values));
    }
}

/// A deprecation attribute holds no buffer.
pub proof fn deprecations_are_plain(d: &Deprecation)
    ensures
        plain(deprecation_doc(d)),
{
    reveal_with_fuel(buffers, 6);
}

/// The attributes of a function hold no buffer.
pub proof fn attributes_are_plain(f: &Function)
    ensures
        plain(attributes_doc(f)),
{
    reveal_with_fuel(buffers, 12);
}

/// A type alias holds no buffer.
pub proof fn type_aliases_are_plain(
    public: bool,
    name: Seq<char>,
    args: Seq<String>,
    typ: &TypeAst,
    deprecation: &Deprecation,
)
    ensures
        plain(type_alias_doc(public, name, args, typ, deprecation)),
{
    deprecations_are_plain(deprecation);
    names_are_plain(args);
    buffers_of_wrapped(name_docs(args), Doc::Nil, public);
    types_are_plain(typ);
    let head = deprecation_doc(deprecation).append(crate::wrap::pub_doc(public)).append(
        Doc::text("type "@),
    ).append(Doc::text(name));
    assert(plain(head)) by {
        reveal_with_fuel(buffers, 5);
    }
    let head = if args.len() == 0 {
        head
    } else {
        head.append(crate::wrap::wrap_args_doc(name_docs(args)).group())
    };
    assert(plain(head)) by {
        reveal_with_fuel(buffers, 3);
    }
    assert(plain(type_alias_doc(public, name, args, typ, deprecation))) by {
        reveal_with_fuel(buffers, 6);
    }
}

/// An import holds no buffer.
pub proof fn imports_are_plain(import: &Import)
    ensures
        plain(import_doc(import)),
{
    reveal_with_fuel(buffers, 10);
    let names = unqualified_docs(
        sorted_by_name(import.unqualified_types@),
        sorted_by_name(import.unqualified_values@),
    );
    unqualified_are_plain(
        sorted_by_name(import.unqualified_types@),
        sorted_by_name(import.unqualified_values@),
    );
    buffers_of_join(names, Doc::flex_break(","@, ", "@));
}

/// A module constant holds no buffer.
pub proof fn module_constants_are_plain(constant: &ModuleConstant)
    ensures
        plain(module_constant_doc(constant)),
{
    reveal_with_fuel(buffers, 10);
    constants_are_plain(&constant.value);
    match constant.annotation {
        Some(annotation) => {
            types_are_plain(&annotation);
        },
        None => {},
    }
}

proof fn buffers_of_doc_comments(items: Seq<Option<Seq<char>>>)
    ensures
        all_buffers(doc_comment_docs(items)) =~= popped_texts(items),
        buffers(doc_comments_doc(items)) =~= popped_texts(items),
    decreases items.len(),
{
    reveal_with_fuel(buffers, 4);
    if items.len() > 0 {
        buffers_of_doc_comments(items.drop_first());
        assert(doc_comment_docs(items).drop_first() =~= doc_comment_docs(items.drop_first()));
        buffers_from_the_front(doc_comment_docs(items));
        buffers_of_join(doc_comment_docs(items), Doc::line());
    }
}

/// Popping doc comments and printing them conserves what there is.
proof fn doc_comments_conserve(t: Trivia, limit: u32)
    ensures
        conserves(t, doc_comments_low(t, limit)),
{
    if t.ordered() {
        crate::trivia::pops_keep_the_order(t, limit);
    }
    popping_hands_out_the_comments(t.doc_comments, t.empty_lines, limit, false);
    buffers_of_doc_comments(t.doc_comments_upto(limit));
}

proof fn constructor_arg_conserves(arg: &RecordConstructorArg, t: Trivia)
    ensures
        conserves(t, constructor_arg_low(arg, t)),
{
    reveal_with_fuel(buffers, 6);
    let start = arg.location.start;
    commenting_conserves(t, start);
    doc_comments_conserve(t.after_comments(start), start);
    types_are_plain(&arg.ast);
}

proof fn constructor_args_conserve(args: Seq<RecordConstructorArg>, n: int, t: Trivia)
    ensures
        conserves_all(t, constructor_args_low(args, n, t)),
    decreases n,
{
    if !(n <= 0 || n > args.len()) {
        constructor_args_conserve(args, n - 1, t);
        let before = constructor_args_low(args, n - 1, t);
        constructor_arg_conserves(&args[n - 1], before.trivia);
        one_more_conserves(t, before, constructor_arg_low(&args[n - 1], before.trivia));
    }
}

/// A record constructor prints the comments it pops.
pub proof fn record_constructor_conserves(constructor: &RecordConstructor, t: Trivia)
    ensures
        conserves(t, record_constructor_low(constructor, t)),
{
    reveal_with_fuel(buffers, 6);
    let start = constructor.location.start;
    commenting_conserves(t, start);
    doc_comments_conserve(t.after_comments(start), start);
    let docs = doc_comments_low(t.after_comments(start), start);
    if constructor.arguments@.len() != 0 {
        constructor_args_conserve(
            constructor.arguments@,
            constructor.arguments@.len() as int,
            docs.trivia,
        );
        buffers_of_wrapped(
            constructor_args_low(
                constructor.arguments@,
                constructor.arguments@.len() as int,
                docs.trivia,
            ).docs,
            Doc::Nil,
            false,
        );
    }
}

proof fn constructors_conserve(constructors: Seq<RecordConstructor>, n: int, t: Trivia)
    ensures
        conserves_all(t, constructors_low(constructors, n, t)),
    decreases n,
{
    reveal_with_fuel(buffers, 3);
    if !(n <= 0 || n > constructors.len()) {
        constructors_conserve(constructors, n - 1, t);
        let before = constructors_low(constructors, n - 1, t);
        let start = constructors[n - 1].location.start;
        blank_lines_conserve(before.trivia, start);
        let t1 = before.trivia.after_empty_lines(start);
        record_constructor_conserves(&constructors[n - 1], t1);
        let next = record_constructor_low(&constructors[n - 1], t1);
        let separator = if before.trivia.blank_upto(start) {
            Doc::lines(2)
        } else {
            Doc::line()
        };
        buffers_of_pushed(before.docs, separator.append(next.doc));
    }
}

/// The head of a custom type holds no buffer.
pub proof fn custom_type_head_is_plain(ct: &CustomType)
    ensures
        plain(
            deprecation_doc(&ct.deprecation).append(crate::wrap::pub_doc(ct.public)).append(
                Doc::text(crate::definition::type_keyword(ct.opaque)),
            ).append(
                if ct.parameters@.len() == 0 {
                    Doc::text(ct.name@)
                } else {
                    Doc::text(ct.name@).append(
                        crate::wrap::wrap_args_doc(name_docs(ct.parameters@)),
                    ).group()
                },
            ),
        ),
{
    reveal_with_fuel(buffers, 10);
    deprecations_are_plain(&ct.deprecation);
    names_are_plain(ct.parameters@);
    buffers_of_wrapped(name_docs(ct.parameters@), Doc::Nil, ct.public);
}

/// A custom type prints the comments it pops.
pub proof fn custom_type_conserves(ct: &CustomType, t: Trivia)
    ensures
        conserves(t, custom_type_low(ct, t)),
{
    reveal_with_fuel(buffers, 10);
    blank_lines_conserve(t, ct.location.end);
    let t1 = t.after_empty_lines(ct.location.end);
    deprecations_are_plain(&ct.deprecation);
    names_are_plain(ct.parameters@);
    buffers_of_wrapped(name_docs(ct.parameters@), Doc::Nil, ct.public);
    if ct.constructors@.len() != 0 {
        constructors_conserve(ct.constructors@, ct.constructors@.len() as int, t1);
        let constructors = constructors_low(ct.constructors@, ct.constructors@.len() as int, t1);
        buffers_of_concat(constructors.docs);
        commenting_conserves(constructors.trivia, ct.end_position);
        popping_hands_out_the_comments(
            constructors.trivia.comments,
            constructors.trivia.empty_lines,
            ct.end_position,
            true,
        );
        printing_prints_the_comments(
            constructors.trivia.comments_upto(ct.end_position),
            false,
            Doc::Nil,
        );
    }
}

/// The head of a function holds what its parameters hold.
proof fn buffers_of_a_head(f: &Function, args: Seq<Doc>)
    ensures
        buffers(
            attributes_doc(f).append(
                (match f.return_annotation {
                    Some(annotation) => crate::wrap::pub_doc(f.public).append(
                        Doc::text("fn "@),
                    ).append(Doc::text(f.name@)).append(crate::wrap::wrap_args_doc(args)).append(
                        Doc::text(" -> "@),
                    ).append(crate::types::type_doc(&annotation)),
                    None => crate::wrap::pub_doc(f.public).append(Doc::text("fn "@)).append(
                        Doc::text(f.name@),
                    ).append(crate::wrap::wrap_args_doc(args)),
                }).group(),
            ),
        ) =~= all_buffers(args),
{
    reveal_with_fuel(buffers, 8);
    attributes_are_plain(f);
    buffers_of_wrapped(args, Doc::Nil, f.public);
    match f.return_annotation {
        Some(annotation) => {
            types_are_plain(&annotation);
        },
        None => {},
    }
}

/// A function prints the comments it pops.
pub proof fn function_conserves(f: &Function, t: Trivia)
    ensures
        conserves(t, function_low(f, t)),
{
    fn_args_conserve(f.arguments@, f.arguments@.len() as int, t);
    let args = fn_args_low(f.arguments@, f.arguments@.len() as int, t);
    buffers_of_a_head(f, args.docs);
    let signature = crate::wrap::pub_doc(f.public).append(Doc::text("fn "@)).append(
        Doc::text(f.name@),
    ).append(crate::wrap::wrap_args_doc(args.docs));
    let signature = (match f.return_annotation {
        Some(annotation) => signature.append(Doc::text(" -> "@)).append(
            crate::types::type_doc(&annotation),
        ),
        None => signature,
    }).group();
    let head = attributes_doc(f).append(signature);
    assert(buffers(head) =~= all_buffers(args.docs));
    if is_stub(f.body@) {
        assert(function_low(f, t) == (Lowered { doc: head, trivia: args.trivia }));
    } else {
        statements_conserve(f.body@, args.trivia);
        let body = statements_low(f.body@, args.trivia);
        commenting_conserves(body.trivia, f.end_position);
        popping_hands_out_the_comments(
            body.trivia.comments,
            body.trivia.empty_lines,
            f.end_position,
            true,
        );
        printing_prints_the_comments(body.trivia.comments_upto(f.end_position), false, Doc::Nil);
        let inner = match printed(body.trivia.comments_upto(f.end_position), false) {
            Some(comments) => body.doc.append(Doc::line()).append(comments),
            None => body.doc,
        };
        assert(buffers(inner) =~= buffers(body.doc).add(
            popped_texts(body.trivia.comments_upto(f.end_position)),
        )) by {
            reveal_with_fuel(buffers, 3);
        }
        let doc = head.append(Doc::text(" {"@)).append(
            Doc::line().append(inner).nest(crate::pretty::INDENT as nat).group(),
        ).append(Doc::line()).append(Doc::text("}"@));
        assert(buffers(doc) =~= buffers(head).add(buffers(inner))) by {
            reveal_with_fuel(buffers, 7);
        }
        assert(function_low(f, t) == (Lowered {
            doc,
            trivia: body.trivia.after_comments(f.end_position),
        }));
    }
}

/// A definition prints the comments it pops.
pub proof fn definition_conserves(d: &Definition, t: Trivia)
    ensures
        conserves(t, definition_low(d, t)),
{
    match d {
        Definition::Function(f) => {
            function_conserves(f, t);
        },
        Definition::TypeAlias(a) => {
            type_aliases_are_plain(a.public, a.alias@, a.parameters@, &a.type_ast, &a.deprecation);
        },
        Definition::CustomType(ct) => {
            custom_type_conserves(ct, t);
        },
        Definition::Import(i) => {
            imports_are_plain(i);
        },
        Definition::ModuleConstant(c) => {
            module_constants_are_plain(c);
        },
    }
}

proof fn targeted_conserves(d: &TargetedDefinition, t: Trivia)
    ensures
        conserves(t, targeted_low(d, t)),
{
    reveal_with_fuel(buffers, 6);
    let start = d.definition.span().start;
    commenting_conserves(t, start);
    let t1 = t.after_comments(start);
    doc_comments_conserve(t1, start);
    definition_conserves(&d.definition, doc_comments_low(t1, start).trivia);
}

proof fn definitions_conserve(definitions: Seq<TargetedDefinition>, n: int, t: Trivia)
    ensures
        conserves_all(t, definitions_low(definitions, n, t)),
    decreases n,
{
    reveal_with_fuel(buffers, 2);
    if !(n <= 0 || n > definitions.len()) {
        definitions_conserve(definitions, n - 1, t);
        let before = definitions_low(definitions, n - 1, t);
        targeted_conserves(&definitions[n - 1], before.trivia);
        let next = targeted_low(&definitions[n - 1], before.trivia);
        buffers_of_pushed(before.docs, Doc::lines(1));
        buffers_of_pushed(before.docs, Doc::lines(2));
        let docs = if n == 1 {
            before.docs
        } else if definitions[n - 2].definition is Import && definitions[n - 1].definition
            is Import {
            before.docs.push(Doc::lines(1))
        } else {
            before.docs.push(Doc::lines(2))
        };
        buffers_of_pushed(docs, next.doc);
    }
}

proof fn buffers_of_prefixed(prefix: Seq<char>, notes: Seq<Note>)
    ensures
        all_buffers(prefixed_docs(prefix, notes)) =~= texts(notes),
        buffers(Doc::join(prefixed_docs(prefix, notes), Doc::line())) =~= texts(notes),
    decreases notes.len(),
{
    reveal_with_fuel(buffers, 3);
    if notes.len() > 0 {
        buffers_of_prefixed(prefix, notes.drop_first());
        assert(prefixed_docs(prefix, notes).drop_first() =~= prefixed_docs(
            prefix,
            notes.drop_first(),
        ));
        buffers_from_the_front(prefixed_docs(prefix, notes));
    }
    buffers_of_join(prefixed_docs(prefix, notes), Doc::line());
}

/// Every offset stands before the largest limit.
pub proof fn everything_is_within_reach(offsets: Seq<u32>)
    ensures
        reach(offsets, u32::MAX) == offsets.len(),
    decreases offsets.len(),
{
    if offsets.len() > 0 {
        everything_is_within_reach(offsets.drop_first());
    }
}

/// A part that is dropped for being empty held no buffer.
proof fn buffers_of_kept(docs: Seq<Doc>, doc: Doc)
    requires
        doc.is_empty() ==> plain(doc),
    ensures
        all_buffers(kept(docs, doc)) =~= all_buffers(docs).add(buffers(doc)),
{
    buffers_of_pushed(docs, doc);
}

/// A concatenation whose first document prints something prints something.
pub proof fn a_concat_is_not_empty(docs: Seq<Doc>)
    requires
        docs.len() > 0,
        !docs[0].is_empty(),
    ensures
        !Doc::concat(docs).is_empty(),
    decreases docs.len(),
{
    if docs.len() > 1 {
        let half = docs.len() as int / 2;
        a_concat_is_not_empty(docs.take(half));
    }
}

/// Separators go between the documents: the first document stays first.
pub proof fn interspersed_starts_alike(docs: Seq<Doc>, separator: Doc)
    requires
        docs.len() > 0,
    ensures
        interspersed(docs, separator).len() > 0,
        interspersed(docs, separator)[0] == docs[0],
    decreases docs.len(),
{
    if docs.len() > 1 {
        interspersed_starts_alike(docs.drop_last(), separator);
    }
}

/// A definition prints something.
proof fn a_definition_is_not_empty(d: &Definition, t: Trivia)
    ensures
        !definition_low(d, t).doc.is_empty(),
{
    reveal_with_fuel(Doc::is_empty, 10);
    reveal_strlit("fn ");
    reveal_strlit("type ");
    reveal_strlit("opaque type ");
    reveal_strlit("import ");
    reveal_strlit("const ");
}

/// A definition with its target, comments and doc comments prints something.
pub proof fn a_targeted_definition_is_not_empty(d: &TargetedDefinition, t: Trivia)
    ensures
        !targeted_low(d, t).doc.is_empty(),
{
    reveal_with_fuel(Doc::is_empty, 5);
    let start = d.definition.span().start;
    let t1 = t.after_comments(start);
    a_definition_is_not_empty(&d.definition, doc_comments_low(t1, start).trivia);
}

/// The documents of a list of definitions begin with that of the first
/// definition.
pub proof fn the_first_definition_comes_first(definitions: Seq<TargetedDefinition>, n: int, t: Trivia)
    requires
        1 <= n <= definitions.len(),
    ensures
        definitions_low(definitions, n, t).docs.len() > 0,
        definitions_low(definitions, n, t).docs[0] == targeted_low(&definitions[0], t).doc,
    decreases n,
{
    let before = definitions_low(definitions, n - 1, t);
    let next = targeted_low(&definitions[n - 1], before.trivia);
    let docs = if n == 1 {
        before.docs
    } else if definitions[n - 2].definition is Import && definitions[n - 1].definition is Import {
        before.docs.push(Doc::lines(1))
    } else {
        before.docs.push(Doc::lines(2))
    };
    assert(definitions_low(definitions, n, t).docs == docs.push(next.doc));
    if n > 1 {
        the_first_definition_comes_first(definitions, n - 1, t);
        assert(docs.push(next.doc)[0] == before.docs[0]);
    } else {
        assert(before.docs.len() == 0);
        assert(before.trivia == t);
    }
}

/// Formatting a module prints every comment once: the owned text buffers of
/// the document of a module are the comments, the doc comments and the
/// module comments of its trivia, each as often as it occurs there; no
/// comment is left in the cursor; and the cursor stays in order.
pub proof fn a_module_prints_every_comment_once(m: &UntypedModule, t: Trivia)
    ensures
        buffers(module_low(m, t).doc) =~= texts(t.comments).add(texts(t.doc_comments)).add(
            texts(t.module_comments),
        ),
        module_low(m, t).trivia.comments.len() == 0,
        t.ordered() ==> module_low(m, t).trivia.ordered(),
{
    let n = m.definitions@.len() as int;
    let definitions = definitions_low(m.definitions@, n, t);
    let rest = definitions.trivia;
    definitions_conserve(m.definitions@, n, t);

    let definitions_doc = Doc::concat(definitions.docs);
    buffers_of_concat(definitions.docs);
    if n > 0 {
        the_first_definition_comes_first(m.definitions@, n, t);
        a_targeted_definition_is_not_empty(&m.definitions@[0], t);
        a_concat_is_not_empty(definitions.docs);
    }

    let doc_comments = Doc::join(prefixed_docs("///"@, rest.doc_comments), Doc::line());
    buffers_of_prefixed("///"@, rest.doc_comments);

    let popped = rest.comments_upto(u32::MAX);
    commenting_conserves(rest, u32::MAX);
    popping_hands_out_the_comments(rest.comments, rest.empty_lines, u32::MAX, true);
    everything_is_within_reach(starts_of(rest.comments));
    assert(rest.comments.take(rest.comments.len() as int) =~= rest.comments);
    printing_prints_the_comments(popped, false, Doc::Nil);
    let comments = match printed_at_end(popped) {
        Some(comments) => comments,
        None => Doc::Nil,
    };
    assert(buffers(comments) =~= texts(rest.comments)) by {
        reveal_with_fuel(buffers, 2);
    }

    let module_comments = if rest.module_comments.len() != 0 {
        Doc::join(prefixed_docs("////"@, rest.module_comments), Doc::line()).append(Doc::line())
    } else {
        Doc::Nil
    };
    buffers_of_prefixed("////"@, rest.module_comments);
    assert(buffers(module_comments) =~= texts(rest.module_comments)) by {
        reveal_with_fuel(buffers, 2);
    }
    assert(!module_comments.is_empty() || plain(module_comments)) by {
        reveal_with_fuel(Doc::is_empty, 2);
    }

    let none = Seq::<Doc>::empty();
    buffers_of_kept(none, module_comments);
    let one = kept(none, module_comments);
    buffers_of_kept(one, definitions_doc);
    let two = kept(one, definitions_doc);
    assert(doc_comments.is_empty() ==> plain(doc_comments)) by {
        if rest.doc_comments.len() > 0 {
            let docs = prefixed_docs("///"@, rest.doc_comments);
            interspersed_starts_alike(docs, Doc::line());
            reveal_strlit("///");
            assert(!docs[0].is_empty()) by {
                reveal_with_fuel(Doc::is_empty, 2);
            }
            a_concat_is_not_empty(interspersed(docs, Doc::line()));
        } else {
            assert(texts(rest.doc_comments) =~= Multiset::empty());
        }
    }
    buffers_of_kept(two, doc_comments);
    let three = kept(two, doc_comments);
    assert(comments.is_empty() ==> plain(comments)) by {
        if popped.len() > 0 {
            popped_starts_with_a_comment(rest.comments, rest.empty_lines, u32::MAX, true);
            let docs = printed_from(popped, 0, false);
            assert(docs.len() > 0 && docs[0] == comment_doc(popped[0]->0));
            reveal_strlit("//");
            assert(!docs[0].is_empty()) by {
                reveal_with_fuel(Doc::is_empty, 2);
            }
            a_concat_is_not_empty(docs);
            reveal_with_fuel(Doc::is_empty, 2);
        }
    }
    buffers_of_kept(three, comments);
    let parts = kept(three, comments);
    buffers_of_join(parts, Doc::line());
    assert(module_low(m, t).doc == Doc::join(parts, Doc::line()).append(Doc::line()));
    assert(buffers(module_low(m, t).doc) =~= all_buffers(parts)) by {
        reveal_with_fuel(buffers, 2);
    }
    assert(rest.comments.skip(rest.comments.len() as int).len() == 0);
}

} // verus!
