//! Lowering of definitions and of whole modules.

use vstd::prelude::*;
use vstd::string::*;
use crate::ast::{
    CustomType,
    Definition,
    Deprecation,
    Function,
    Import,
    ModuleConstant,
    RecordConstructor,
    RecordConstructorArg,
    SrcSpan,
    Statement,
    Target,
    TargetedDefinition,
    TypeAlias,
    TypeAst,
    TypedArg,
    TypedConstant,
    UnqualifiedImport,
    UntypedExpr,
    UntypedModule,
};
use crate::constant::{const_expr, constant_doc};
use crate::expr::{arg_names, fn_args_low, names_doc, statements_low, statements_ok};
use crate::imports::{referents, sorted, sorted_by_name};
use crate::pretty::{
    break_,
    concat,
    docs_of,
    flex_break,
    intersperse,
    interspersed,
    join,
    line,
    lines,
    nil,
    text,
    Doc,
    Document,
    INDENT,
};
use crate::trivia::{
    commented,
    commented_doc,
    notes_of,
    printed,
    printed_at_end,
    printed_comments,
    printed_comments_at_end,
    push_doc,
    texts_of,
    Comment,
    Formatter,
    Lowered,
    LoweredAll,
    Note,
    Trivia,
};
use crate::types::{type_ast, type_doc};
use crate::wrap::{pub_, pub_doc, wrap_args, wrap_args_doc};

verus! {

impl Definition {
    /// The span the definition was parsed from.
    pub open spec fn span(&self) -> SrcSpan {
        match self {
            Definition::Function(f) => f.location,
            Definition::TypeAlias(a) => a.location,
            Definition::CustomType(c) => c.location,
            Definition::Import(i) => i.location,
            Definition::ModuleConstant(c) => c.location,
        }
    }

    /// The span the definition was parsed from.
    pub fn location(&self) -> (r: SrcSpan)
        ensures
            r == self.span(),
    {
        match self {
            Definition::Function(f) => f.location,
            Definition::TypeAlias(a) => a.location,
            Definition::CustomType(c) => c.location,
            Definition::Import(i) => i.location,
            Definition::ModuleConstant(c) => c.location,
        }
    }

    /// Whether the definition is an import.
    pub fn is_import(&self) -> (r: bool)
        ensures
            r == (self is Import),
    {
        match self {
            Definition::Import(_) => true,
            _ => false,
        }
    }
}

/// Whether the body of a function is the single placeholder that stands for
/// a body that is not there.
pub open spec fn is_stub(body: Seq<Statement>) -> bool {
    body.len() == 1 && body[0] matches Statement::Expression(UntypedExpr::Placeholder { .. })
}

/// Whether a function can be lowered: it has no body, or its body can.
pub open spec fn function_ok(f: &Function) -> bool {
    is_stub(f.body@) || statements_ok(f.body@)
}

/// Whether a definition can be lowered.
pub open spec fn definition_ok(d: &Definition) -> bool {
    d matches Definition::Function(f) ==> function_ok(f)
}

/// Whether every definition of a module can be lowered.
pub open spec fn module_ok(m: &UntypedModule) -> bool {
    forall|i: int|
        0 <= i < m.definitions@.len() ==> definition_ok(&(#[trigger] m.definitions@[i]).definition)
}

/// The document of each text as a name.
pub open spec fn name_docs(names: Seq<String>) -> Seq<Doc> {
    Seq::new(names.len(), |i: int| Doc::text(names[i]@))
}

/// The `@deprecated` line of a deprecated item; empty text for any other.
pub open spec fn deprecation_doc(deprecation: &Deprecation) -> Doc {
    match deprecation {
        Deprecation::NotDeprecated => Doc::text(""@),
        Deprecation::Deprecated { message } => Doc::text(""@).append(
            Doc::text("@deprecated(\""@),
        ).append(Doc::text(message@)).append(Doc::text("\")"@)).append(Doc::line()),
    }
}

/// One `@external` line.
pub open spec fn external_doc(target: Seq<char>, module: Seq<char>, function: Seq<char>) -> Doc {
    Doc::text("@external("@).append(Doc::text(target)).append(Doc::text(", \""@)).append(
        Doc::text(module),
    ).append(Doc::text("\", \""@)).append(Doc::text(function)).append(Doc::text("\")"@)).append(
        Doc::line(),
    )
}

/// The lines of attributes above a function.
pub open spec fn attributes_doc(f: &Function) -> Doc {
    let first = deprecation_doc(&f.deprecation);
    let second = match f.external_erlang {
        Some(names) => first.append(external_doc("erlang"@, names.0@, names.1@)),
        None => first,
    };
    match f.external_javascript {
        Some(names) => second.append(external_doc("javascript"@, names.0@, names.1@)),
        None => second,
    }
}

/// The doc comments that were popped, each on a line of its own above what
/// they document; nothing where none were popped.
pub open spec fn doc_comment_docs(comments: Seq<Option<Seq<char>>>) -> Seq<Doc> {
    Seq::new(
        comments.len(),
        |i: int|
            match comments[i] {
                Some(text) => Doc::text("///"@).append(Doc::string(text)),
                None => Doc::Nil,
            },
    )
}

/// The document of a run of doc comments: one to a line, with a line
/// break behind the last; nothing where there is none.
pub open spec fn doc_comments_doc(comments: Seq<Option<Seq<char>>>) -> Doc {
    if comments.len() == 0 {
        Doc::Nil
    } else {
        Doc::join(doc_comment_docs(comments), Doc::line()).append(Doc::line()).force_break()
    }
}

/// The doc comments up to `limit`.
pub open spec fn doc_comments_low(t: Trivia, limit: u32) -> Lowered {
    Lowered { doc: doc_comments_doc(t.doc_comments_upto(limit)), trivia: t.after_doc_comments(limit) }
}

/// A type alias.
pub open spec fn type_alias_doc(
    public: bool,
    name: Seq<char>,
    args: Seq<String>,
    typ: &TypeAst,
    deprecation: &Deprecation,
) -> Doc {
    let head = deprecation_doc(deprecation).append(pub_doc(public)).append(
        Doc::text("type "@),
    ).append(Doc::text(name));
    let head = if args.len() == 0 {
        head
    } else {
        head.append(wrap_args_doc(name_docs(args)).group())
    };
    head.append(Doc::text(" ="@)).append(
        Doc::line().append(type_doc(typ)).group().nest(INDENT as nat),
    )
}

/// One field of a record constructor, under its comments and doc comments.
pub open spec fn constructor_arg_low(arg: &RecordConstructorArg, t: Trivia) -> Lowered {
    let start = arg.location.start;
    let doc = match arg.label {
        Some(label) => Doc::text(label@).append(Doc::text(": "@)).append(type_doc(&arg.ast)),
        None => type_doc(&arg.ast),
    };
    let docs = doc_comments_low(t.after_comments(start), start);
    Lowered {
        doc: commented_doc(docs.doc.append(doc).group(), t.comments_upto(start)),
        trivia: docs.trivia,
    }
}

/// Lowers the first `n` fields of a constructor, one after the other.
pub open spec fn constructor_args_low(args: Seq<RecordConstructorArg>, n: int, t: Trivia) -> LoweredAll
    decreases n,
{
    if n <= 0 || n > args.len() {
        LoweredAll { docs: Seq::empty(), trivia: t }
    } else {
        let before = constructor_args_low(args, n - 1, t);
        let next = constructor_arg_low(&args[n - 1], before.trivia);
        LoweredAll { docs: before.docs.push(next.doc), trivia: next.trivia }
    }
}

/// A record constructor, under its comments and doc comments.
pub open spec fn record_constructor_low(constructor: &RecordConstructor, t: Trivia) -> Lowered {
    let start = constructor.location.start;
    let docs = doc_comments_low(t.after_comments(start), start);
    let inner = if constructor.arguments@.len() == 0 {
        Lowered { doc: Doc::text(constructor.name@), trivia: docs.trivia }
    } else {
        let args = constructor_args_low(
            constructor.arguments@,
            constructor.arguments@.len() as int,
            docs.trivia,
        );
        Lowered {
            doc: Doc::text(constructor.name@).append(wrap_args_doc(args.docs)).group(),
            trivia: args.trivia,
        }
    };
    Lowered {
        doc: commented_doc(docs.doc.append(inner.doc).group(), t.comments_upto(start)),
        trivia: inner.trivia,
    }
}

/// The first `n` constructors, each after a line break, or after a blank
/// line where the source had one or more before it.
pub open spec fn constructors_low(constructors: Seq<RecordConstructor>, n: int, t: Trivia) -> LoweredAll
    decreases n,
{
    if n <= 0 || n > constructors.len() {
        LoweredAll { docs: Seq::empty(), trivia: t }
    } else {
        let before = constructors_low(constructors, n - 1, t);
        let start = constructors[n - 1].location.start;
        let next = record_constructor_low(
            &constructors[n - 1],
            before.trivia.after_empty_lines(start),
        );
        let separator = if before.trivia.blank_upto(start) {
            Doc::lines(2)
        } else {
            Doc::line()
        };
        LoweredAll { docs: before.docs.push(separator.append(next.doc)), trivia: next.trivia }
    }
}

/// The keyword of a custom type.
pub open spec fn type_keyword(opaque: bool) -> Seq<char> {
    if opaque {
        "opaque type "@
    } else {
        "type "@
    }
}

/// A custom type. The blank lines up to its end are dropped first; the
/// comments left before its closing brace stand after its last constructor.
pub open spec fn custom_type_low(ct: &CustomType, t: Trivia) -> Lowered {
    let t = t.after_empty_lines(ct.location.end);
    let name = if ct.parameters@.len() == 0 {
        Doc::text(ct.name@)
    } else {
        Doc::text(ct.name@).append(wrap_args_doc(name_docs(ct.parameters@))).group()
    };
    let head = deprecation_doc(&ct.deprecation).append(pub_doc(ct.public)).append(
        Doc::text(type_keyword(ct.opaque)),
    ).append(name);
    if ct.constructors@.len() == 0 {
        Lowered { doc: head, trivia: t }
    } else {
        let constructors = constructors_low(ct.constructors@, ct.constructors@.len() as int, t);
        let inner = Doc::concat(constructors.docs);
        let inner = match printed(constructors.trivia.comments_upto(ct.end_position), false) {
            Some(comments) => inner.append(Doc::line()).append(comments),
            None => inner,
        };
        Lowered {
            doc: head.append(Doc::text(" {"@)).append(inner.nest(INDENT as nat).group()).append(
                Doc::line(),
            ).append(Doc::text("}"@)),
            trivia: constructors.trivia.after_comments(ct.end_position),
        }
    }
}

/// An opaque custom type as the documentation shows it.
pub open spec fn opaque_custom_type_doc(public: bool, name: Seq<char>, args: Seq<String>) -> Doc {
    pub_doc(public).append(Doc::text("opaque type "@)).append(
        if args.len() == 0 {
            Doc::text(name)
        } else {
            Doc::text(name).append(wrap_args_doc(name_docs(args)))
        },
    )
}

/// The parameters of a checked function, each with its type.
pub open spec fn typed_arg_docs(args: Seq<TypedArg>) -> Seq<Doc> {
    Seq::new(
        args.len(),
        |i: int|
            names_doc(&args[i].names).append(
                Doc::text(": "@).append(Doc::text(args[i].type_@)),
            ).group(),
    )
}

/// The signature of a checked function as the documentation shows it.
pub open spec fn fn_signature_doc(
    public: bool,
    name: Seq<char>,
    args: Seq<TypedArg>,
    return_type: Seq<char>,
) -> Doc {
    pub_doc(public).append(Doc::text("fn "@)).append(Doc::text(name)).append(
        wrap_args_doc(typed_arg_docs(args)),
    ).append(Doc::text(" -> "@)).append(Doc::text(return_type))
}

/// A checked constant as the documentation shows it.
pub open spec fn docs_const_doc(public: bool, name: Seq<char>, value: &TypedConstant) -> Doc {
    pub_doc(public).append(Doc::text("const "@)).append(Doc::text(name)).append(
        Doc::text(": "@),
    ).append(Doc::text(value.type_@)).append(Doc::text(" = "@)).append(constant_doc(&value.value))
}

/// A function. One without a body is its signature alone. The comments left
/// before the closing brace stand after the last statement.
pub open spec fn function_low(f: &Function, t: Trivia) -> Lowered {
    let args = fn_args_low(f.arguments@, f.arguments@.len() as int, t);
    let signature = pub_doc(f.public).append(Doc::text("fn "@)).append(Doc::text(f.name@)).append(
        wrap_args_doc(args.docs),
    );
    let signature = (match f.return_annotation {
        Some(annotation) => signature.append(Doc::text(" -> "@)).append(type_doc(&annotation)),
        None => signature,
    }).group();
    let head = attributes_doc(f).append(signature);
    if is_stub(f.body@) {
        Lowered { doc: head, trivia: args.trivia }
    } else {
        let body = statements_low(f.body@, args.trivia);
        let inner = match printed(body.trivia.comments_upto(f.end_position), false) {
            Some(comments) => body.doc.append(Doc::line()).append(comments),
            None => body.doc,
        };
        Lowered {
            doc: head.append(Doc::text(" {"@)).append(
                Doc::line().append(inner).nest(INDENT as nat).group(),
            ).append(Doc::line()).append(Doc::text("}"@)),
            trivia: body.trivia.after_comments(f.end_position),
        }
    }
}

/// One imported name, with the name it is imported as.
pub open spec fn unqualified_doc(import: &UnqualifiedImport) -> Doc {
    Doc::text(import.name@).append(
        match import.as_name {
            None => Doc::Nil,
            Some(name) => Doc::text(" as "@).append(Doc::text(name@)),
        },
    )
}

/// The documents of the names that an import lists: the types first, each
/// after `type `, then the values.
pub open spec fn unqualified_docs(types: Seq<UnqualifiedImport>, values: Seq<UnqualifiedImport>) -> Seq<
    Doc,
> {
    Seq::new(
        types.len() + values.len(),
        |i: int|
            if i < types.len() {
                Doc::text("type "@).append(unqualified_doc(&types[i]))
            } else {
                unqualified_doc(&values[i - types.len()])
            },
    )
}

/// An import: the module, the names it lists in braces, types before values
/// and each kind in the order of the names, and the name it is imported as.
pub open spec fn import_doc(import: &Import) -> Doc {
    let second = if import.unqualified_values@.len() == 0 && import.unqualified_types@.len() == 0 {
        Doc::Nil
    } else {
        let names = unqualified_docs(
            sorted_by_name(import.unqualified_types@),
            sorted_by_name(import.unqualified_values@),
        );
        Doc::text(".{"@).append(
            Doc::break_(""@, ""@).append(
                Doc::concat(interspersed(names, Doc::flex_break(","@, ", "@))),
            ).nest(INDENT as nat).append(Doc::break_(","@, ""@)).group(),
        ).append(Doc::text("}"@))
    };
    let doc = Doc::text("import "@).append(Doc::text(import.module@)).append(second);
    match import.as_name {
        Some(name) => doc.append(Doc::text(" as "@)).append(Doc::text(name.spec_name())),
        None => doc,
    }
}

/// A module constant.
pub open spec fn module_constant_doc(constant: &ModuleConstant) -> Doc {
    let head = pub_doc(constant.public).append(Doc::text("const "@)).append(
        Doc::text(constant.name@),
    );
    let head = match constant.annotation {
        None => head,
        Some(annotation) => head.append(Doc::text(": "@)).append(type_doc(&annotation)),
    };
    head.append(Doc::text(" = "@)).append(constant_doc(&constant.value))
}

/// A definition.
pub open spec fn definition_low(d: &Definition, t: Trivia) -> Lowered {
    match d {
        Definition::Function(f) => function_low(f, t),
        Definition::TypeAlias(a) => Lowered {
            doc: type_alias_doc(a.public, a.alias@, a.parameters@, &a.type_ast, &a.deprecation),
            trivia: t,
        },
        Definition::CustomType(ct) => custom_type_low(ct, t),
        Definition::Import(i) => Lowered { doc: import_doc(i), trivia: t },
        Definition::ModuleConstant(c) => Lowered { doc: module_constant_doc(c), trivia: t },
    }
}

/// A definition under its doc comments.
pub open spec fn documented_low(d: &Definition, t: Trivia) -> Lowered {
    let comments = doc_comments_low(t, d.span().start);
    let inner = definition_low(d, comments.trivia);
    Lowered { doc: comments.doc.append(inner.doc.group()).group(), trivia: inner.trivia }
}

/// The annotation line of a definition that is compiled for one target only.
pub open spec fn targeted_doc(target: Option<Target>, doc: Doc) -> Doc {
    match target {
        None => doc,
        Some(Target::Erlang) => Doc::text("@target(erlang)"@).append(Doc::line()).append(doc),
        Some(Target::JavaScript) => Doc::text("@target(javascript)"@).append(Doc::line()).append(
            doc,
        ),
    }
}

/// A definition under the comments before it, with its target annotation and
/// its doc comments.
pub open spec fn targeted_low(d: &TargetedDefinition, t: Trivia) -> Lowered {
    let start = d.definition.span().start;
    let inner = documented_low(&d.definition, t.after_comments(start));
    Lowered {
        doc: commented_doc(targeted_doc(d.target, inner.doc), t.comments_upto(start)),
        trivia: inner.trivia,
    }
}

/// The first `n` definitions: a line break between two imports, a blank line
/// between any other two.
pub open spec fn definitions_low(definitions: Seq<TargetedDefinition>, n: int, t: Trivia) -> LoweredAll
    decreases n,
{
    if n <= 0 || n > definitions.len() {
        LoweredAll { docs: Seq::empty(), trivia: t }
    } else {
        let before = definitions_low(definitions, n - 1, t);
        let next = targeted_low(&definitions[n - 1], before.trivia);
        let docs = if n == 1 {
            before.docs
        } else if definitions[n - 2].definition is Import && definitions[n - 1].definition
            is Import {
            before.docs.push(Doc::lines(1))
        } else {
            before.docs.push(Doc::lines(2))
        };
        LoweredAll { docs: docs.push(next.doc), trivia: next.trivia }
    }
}

/// Each comment after `prefix`.
pub open spec fn prefixed_docs(prefix: Seq<char>, notes: Seq<Note>) -> Seq<Doc> {
    Seq::new(notes.len(), |i: int| Doc::text(prefix).append(Doc::string(notes[i].text)))
}

/// `docs` with `doc` added if it prints anything.
pub open spec fn kept(docs: Seq<Doc>, doc: Doc) -> Seq<Doc> {
    if doc.is_empty() {
        docs
    } else {
        docs.push(doc)
    }
}

/// A whole module: the module comments, the definitions, the doc comments
/// that document nothing, and the comments after the last definition; those
/// of the four that print anything, with a line break between them and one
/// at the end. A blank line that followed the last comment in the source is
/// kept. Afterwards no comment is left.
pub open spec fn module_low(m: &UntypedModule, t: Trivia) -> Lowered {
    let definitions = definitions_low(m.definitions@, m.definitions@.len() as int, t);
    let doc_comments = Doc::join(
        prefixed_docs("///"@, definitions.trivia.doc_comments),
        Doc::line(),
    );
    let comments = match printed_at_end(definitions.trivia.comments_upto(u32::MAX)) {
        Some(comments) => comments,
        None => Doc::Nil,
    };
    let module_comments = if definitions.trivia.module_comments.len() != 0 {
        Doc::join(prefixed_docs("////"@, definitions.trivia.module_comments), Doc::line()).append(
            Doc::line(),
        )
    } else {
        Doc::Nil
    };
    let parts = kept(
        kept(kept(kept(Seq::empty(), module_comments), Doc::concat(definitions.docs)), doc_comments),
        comments,
    );
    Lowered {
        doc: Doc::join(parts, Doc::line()).append(Doc::line()),
        trivia: definitions.trivia.after_comments(u32::MAX),
    }
}

/// Each text as a name.
fn names<'a>(list: &'a Vec<String>) -> (r: Vec<Document<'a>>)
    ensures
        docs_of(r@) == name_docs(list@),
{
    let mut docs: Vec<Document<'a>> = Vec::new();
    let mut i: usize = 0;
    while i < list.len()
        invariant
            i <= list@.len(),
            docs@.len() == i,
            forall|k: int| 0 <= k < i ==> (#[trigger] docs@[k])@ == Doc::text(list@[k]@),
        decreases list@.len() - i,
    {
        docs.push(text(list[i].as_str()));
        i += 1;
    }
    assert(docs_of(docs@) =~= name_docs(list@));
    docs
}

/// Each comment after `prefix`.
fn prefixed<'a>(prefix: &'a str, comments: &[Comment<'_>]) -> (r: Vec<Document<'a>>)
    ensures
        docs_of(r@) == prefixed_docs(prefix@, notes_of(comments@)),
{
    let mut docs: Vec<Document<'a>> = Vec::new();
    let mut i: usize = 0;
    while i < comments.len()
        invariant
            i <= comments@.len(),
            docs@.len() == i,
            forall|k: int|
                0 <= k < i ==> (#[trigger] docs@[k])@ == Doc::text(prefix@).append(
                    Doc::string(comments@[k].content@),
                ),
        decreases comments@.len() - i,
    {
        docs.push(text(prefix).append(Document::String(String::from_str(comments[i].content))));
        i += 1;
    }
    assert(docs_of(docs@) =~= prefixed_docs(prefix@, notes_of(comments@)));
    docs
}

/// Adds `doc` to `docs` if it prints anything.
fn keep<'a>(docs: &mut Vec<Document<'a>>, doc: Document<'a>)
    ensures
        docs_of(final(docs)@) == kept(docs_of(old(docs)@), doc@),
{
    if !doc.is_empty() {
        push_doc(docs, doc);
    }
}

/// The `@deprecated` line of a deprecated item.
pub fn deprecation_attr<'a>(deprecation: &'a Deprecation) -> (r: Document<'a>)
    ensures
        r@ == deprecation_doc(deprecation),
{
    match deprecation {
        Deprecation::NotDeprecated => text(""),
        Deprecation::Deprecated { message } => text("").append(text("@deprecated(\"")).append(
            text(message.as_str()),
        ).append(text("\")")).append(line()),
    }
}

/// An attribute that binds the function to one of another language.
fn external<'a>(target: &'a str, module: &'a str, function: &'a str) -> (r: Document<'a>)
    ensures
        r@ == external_doc(target@, module@, function@),
{
    text("@external(").append(text(target)).append(text(", \"")).append(text(module)).append(
        text("\", \""),
    ).append(text(function)).append(text("\")")).append(line())
}

/// One imported name, with the name it is imported as.
fn unqualified<'a>(import: &'a UnqualifiedImport) -> (r: Document<'a>)
    ensures
        r@ == unqualified_doc(import),
{
    text(import.name.as_str()).append(
        match &import.as_name {
            None => nil(),
            Some(name) => text(" as ").append(text(name.as_str())),
        },
    )
}

/// Lowers an import.
pub fn import<'a>(item: &'a Import) -> (r: Document<'a>)
    ensures
        r@ == import_doc(item),
{
    let second = if item.unqualified_values.len() == 0 && item.unqualified_types.len() == 0 {
        nil()
    } else {
        let types = sorted(&item.unqualified_types);
        let values = sorted(&item.unqualified_values);
        let ghost sorted_types = sorted_by_name(item.unqualified_types@);
        let ghost sorted_values = sorted_by_name(item.unqualified_values@);
        let mut docs: Vec<Document<'a>> = Vec::new();
        let mut i: usize = 0;
        while i < types.len()
            invariant
                i <= types@.len(),
                referents(types@) == sorted_types,
                docs@.len() == i,
                forall|k: int|
                    0 <= k < i ==> (#[trigger] docs@[k])@ == Doc::text("type "@).append(
                        unqualified_doc(&sorted_types[k]),
                    ),
            decreases types@.len() - i,
        {
            assert(*types@[i as int] == referents(types@)[i as int]);
            docs.push(text("type ").append(unqualified(types[i])));
            i += 1;
        }
        let mut j: usize = 0;
        while j < values.len()
            invariant
                j <= values@.len(),
                referents(values@) == sorted_values,
                referents(types@) == sorted_types,
                docs@.len() == types@.len() + j,
                forall|k: int|
                    0 <= k < types@.len() ==> (#[trigger] docs@[k])@ == Doc::text("type "@).append(
                        unqualified_doc(&sorted_types[k]),
                    ),
                forall|k: int|
                    0 <= k < j ==> (#[trigger] docs@[types@.len() + k])@ == unqualified_doc(
                        &sorted_values[k],
                    ),
            decreases values@.len() - j,
        {
            assert(*values@[j as int] == referents(values@)[j as int]);
            docs.push(unqualified(values[j]));
            j += 1;
        }
        assert(docs_of(docs@) =~= unqualified_docs(sorted_types, sorted_values)) by {
            assert forall|k: int| 0 <= k < docs@.len() implies docs_of(docs@)[k]
                == unqualified_docs(sorted_types, sorted_values)[k] by {
                if k >= types@.len() {
                    assert(docs@[types@.len() + (k - types@.len())]@ == unqualified_doc(
                        &sorted_values[k - types@.len()],
                    ));
                }
            }
        }
        let listed = intersperse(docs, flex_break(",", ", "));
        text(".{").append(
            break_("", "").append(concat(listed)).nest(INDENT).append(break_(",", "")).group(),
        ).append(text("}"))
    };
    let doc = text("import ").append(text(item.module.as_str())).append(second);
    match &item.as_name {
        Some(name) => doc.append(text(" as ")).append(text(name.name())),
        None => doc,
    }
}

/// Lowers a module constant.
pub fn module_constant<'a>(constant: &'a ModuleConstant) -> (r: Document<'a>)
    ensures
        r@ == module_constant_doc(constant),
{
    let head = pub_(constant.public).append(text("const ")).append(text(constant.name.as_str()));
    let head = match &constant.annotation {
        None => head,
        Some(annotation) => head.append(text(": ")).append(type_ast(annotation)),
    };
    head.append(text(" = ")).append(const_expr(&constant.value))
}

impl<'c> Formatter<'c> {
    /// Pops the doc comments up to `limit` and prints them.
    pub fn doc_comments<'a>(&mut self, limit: u32) -> (r: Document<'a>)
        ensures
            r@ == doc_comments_low(old(self)@, limit).doc,
            final(self)@ == doc_comments_low(old(self)@, limit).trivia,
    {
        let comments = self.pop_doc_comments(limit);
        if comments.len() == 0 {
            return nil();
        }
        let mut docs: Vec<Document<'a>> = Vec::new();
        let mut i: usize = 0;
        while i < comments.len()
            invariant
                i <= comments@.len(),
                docs@.len() == i,
                forall|k: int|
                    0 <= k < i ==> (#[trigger] docs@[k])@ == doc_comment_docs(texts_of(comments@))[k],
            decreases comments@.len() - i,
        {
            let doc = match comments[i] {
                Some(c) => text("///").append(Document::String(String::from_str(c))),
                None => nil(),
            };
            docs.push(doc);
            i += 1;
        }
        assert(docs_of(docs@) =~= doc_comment_docs(texts_of(comments@)));
        join(docs, line()).append(line()).force_break()
    }

    /// Lowers a type alias. The cursor stays where it is.
    pub fn type_alias<'a>(
        &mut self,
        public: bool,
        name: &'a str,
        args: &'a Vec<String>,
        typ: &'a TypeAst,
        deprecation: &'a Deprecation,
    ) -> (r: Document<'a>)
        ensures
            r@ == type_alias_doc(public, name@, args@, typ, deprecation),
            final(self)@ == old(self)@,
    {
        let head = deprecation_attr(deprecation).append(pub_(public)).append(text("type ")).append(
            text(name),
        );
        let head = if args.len() == 0 {
            head
        } else {
            head.append(wrap_args(names(args)).group())
        };
        head.append(text(" =")).append(line().append(type_ast(typ)).group().nest(INDENT))
    }

    /// One field of a constructor: its type, behind its label where it has
    /// one, below the comments before it.
    fn constructor_arg<'a>(&mut self, arg: &'a RecordConstructorArg) -> (r: Document<'a>)
        ensures
            r@ == constructor_arg_low(arg, old(self)@).doc,
            final(self)@ == constructor_arg_low(arg, old(self)@).trivia,
    {
        let arg_comments = self.pop_comments(arg.location.start);
        let doc = match &arg.label {
            Some(label) => text(label.as_str()).append(text(": ")).append(type_ast(&arg.ast)),
            None => type_ast(&arg.ast),
        };
        commented(self.doc_comments(arg.location.start).append(doc).group(), &arg_comments)
    }

    /// Lowers a record constructor, with its comments and doc comments.
    pub fn record_constructor<'a>(&mut self, constructor: &'a RecordConstructor) -> (r: Document<
        'a,
    >)
        ensures
            r@ == record_constructor_low(constructor, old(self)@).doc,
            final(self)@ == record_constructor_low(constructor, old(self)@).trivia,
    {
        let comments = self.pop_comments(constructor.location.start);
        let doc_comments = self.doc_comments(constructor.location.start);
        let doc = if constructor.arguments.len() == 0 {
            text(constructor.name.as_str())
        } else {
            let ghost start = self@;
            let args = &constructor.arguments;
            let mut docs: Vec<Document<'a>> = Vec::new();
            let mut i: usize = 0;
            assert(docs_of(docs@) =~= constructor_args_low(args@, 0, start).docs);
            while i < args.len()
                invariant
                    i <= args@.len(),
                    docs_of(docs@) == constructor_args_low(args@, i as int, start).docs,
                    self@ == constructor_args_low(args@, i as int, start).trivia,
                decreases args@.len() - i,
            {
                let doc = self.constructor_arg(&args[i]);
                push_doc(&mut docs, doc);
                i += 1;
            }
            text(constructor.name.as_str()).append(wrap_args(docs)).group()
        };
        commented(doc_comments.append(doc).group(), &comments)
    }

    /// Lowers a custom type.
    pub fn custom_type<'a>(&mut self, ct: &'a CustomType) -> (r: Document<'a>)
        ensures
            r@ == custom_type_low(ct, old(self)@).doc,
            final(self)@ == custom_type_low(ct, old(self)@).trivia,
    {
        let _ = self.pop_empty_lines(ct.location.end);
        let name = if ct.parameters.len() == 0 {
            text(ct.name.as_str())
        } else {
            text(ct.name.as_str()).append(wrap_args(names(&ct.parameters))).group()
        };
        let doc = deprecation_attr(&ct.deprecation).append(pub_(ct.public)).append(
            text(
                if ct.opaque {
                    "opaque type "
                } else {
                    "type "
                },
            ),
        ).append(name);
        if ct.constructors.len() == 0 {
            return doc;
        }
        let doc = doc.append(text(" {"));
        let ghost start = self@;
        let constructors = &ct.constructors;
        let mut docs: Vec<Document<'a>> = Vec::new();
        let mut i: usize = 0;
        assert(docs_of(docs@) =~= constructors_low(constructors@, 0, start).docs);
        while i < constructors.len()
            invariant
                i <= constructors@.len(),
                docs_of(docs@) == constructors_low(constructors@, i as int, start).docs,
                self@ == constructors_low(constructors@, i as int, start).trivia,
            decreases constructors@.len() - i,
        {
            let separator = if self.pop_empty_lines(constructors[i].location.start) {
                lines(2)
            } else {
                line()
            };
            let constructor = self.record_constructor(&constructors[i]);
            push_doc(&mut docs, separator.append(constructor));
            i += 1;
        }
        let inner = concat(docs);
        let trailing = self.pop_comments(ct.end_position);
        let inner = match printed_comments(&trailing, false) {
            Some(comments) => inner.append(line()).append(comments),
            None => inner,
        }.nest(INDENT).group();
        doc.append(inner).append(line()).append(text("}"))
    }

    /// Lowers an opaque custom type for the documentation. The blank lines up
    /// to its start are dropped.
    pub fn docs_opaque_custom_type<'a>(
        &mut self,
        public: bool,
        name: &'a str,
        args: &'a Vec<String>,
        location: &'a SrcSpan,
    ) -> (r: Document<'a>)
        ensures
            r@ == opaque_custom_type_doc(public, name@, args@),
            final(self)@ == old(self)@.after_empty_lines(location.start),
    {
        let _ = self.pop_empty_lines(location.start);
        pub_(public).append(text("opaque type ")).append(
            if args.len() == 0 {
                text(name)
            } else {
                text(name).append(wrap_args(names(args)))
            },
        )
    }

    /// Lowers the signature of a checked function for the documentation. The
    /// cursor stays where it is.
    pub fn docs_fn_signature<'a>(
        &mut self,
        public: bool,
        name: &'a str,
        args: &'a Vec<TypedArg>,
        return_type: &'a str,
    ) -> (r: Document<'a>)
        ensures
            r@ == fn_signature_doc(public, name@, args@, return_type@),
            final(self)@ == old(self)@,
    {
        pub_(public).append(text("fn ")).append(text(name)).append(self.docs_fn_args(args)).append(
            text(" -> "),
        ).append(text(return_type))
    }

    /// Lowers the parameters of a checked function, each with its type. The
    /// cursor stays where it is.
    pub fn docs_fn_args<'a>(&mut self, args: &'a Vec<TypedArg>) -> (r: Document<'a>)
        ensures
            r@ == wrap_args_doc(typed_arg_docs(args@)),
            final(self)@ == old(self)@,
    {
        let mut docs: Vec<Document<'a>> = Vec::new();
        let mut i: usize = 0;
        while i < args.len()
            invariant
                i <= args@.len(),
                docs@.len() == i,
                forall|k: int| 0 <= k < i ==> (#[trigger] docs@[k])@ == typed_arg_docs(args@)[k],
            decreases args@.len() - i,
        {
            docs.push(
                arg_names(&args[i].names).append(
                    text(": ").append(text(args[i].type_.as_str())),
                ).group(),
            );
            i += 1;
        }
        assert(docs_of(docs@) =~= typed_arg_docs(args@));
        wrap_args(docs)
    }

    /// Lowers a checked constant for the documentation. The cursor stays
    /// where it is.
    pub fn docs_const_expr<'a>(&mut self, public: bool, name: &'a str, value: &'a TypedConstant) -> (r:
        Document<'a>)
        ensures
            r@ == docs_const_doc(public, name@, value),
            final(self)@ == old(self)@,
    {
        pub_(public).append(text("const ")).append(text(name)).append(text(": ")).append(
            text(value.type_.as_str()),
        ).append(text(" = ")).append(const_expr(&value.value))
    }

    /// Lowers a function.
    pub fn statement_fn<'a>(&mut self, function: &'a Function) -> (r: Document<'a>)
        requires
            function_ok(function),
        ensures
            r@ == function_low(function, old(self)@).doc,
            final(self)@ == function_low(function, old(self)@).trivia,
    {
        let attributes = deprecation_attr(&function.deprecation);
        let attributes = match &function.external_erlang {
            Some(names) => attributes.append(
                external("erlang", names.0.as_str(), names.1.as_str()),
            ),
            None => attributes,
        };
        let attributes = match &function.external_javascript {
            Some(names) => attributes.append(
                external("javascript", names.0.as_str(), names.1.as_str()),
            ),
            None => attributes,
        };
        let signature = pub_(function.public).append(text("fn ")).append(
            text(function.name.as_str()),
        ).append(wrap_args(self.fn_args(&function.arguments)));
        let signature = match &function.return_annotation {
            Some(annotation) => signature.append(text(" -> ")).append(type_ast(annotation)),
            None => signature,
        }.group();
        let head = attributes.append(signature);
        let body = &function.body;
        if body.len() == 1 && is_placeholder(&body[0]) {
            return head;
        }
        let body = self.statements(body);
        let trailing = self.pop_comments(function.end_position);
        let body = match printed_comments(&trailing, false) {
            Some(comments) => body.append(line()).append(comments),
            None => body,
        };
        head.append(text(" {")).append(line().append(body).nest(INDENT).group()).append(
            line(),
        ).append(text("}"))
    }

    /// Lowers a definition.
    pub fn definition<'a>(&mut self, statement: &'a Definition) -> (r: Document<'a>)
        requires
            definition_ok(statement),
        ensures
            r@ == definition_low(statement, old(self)@).doc,
            final(self)@ == definition_low(statement, old(self)@).trivia,
    {
        match statement {
            Definition::Function(function) => self.statement_fn(function),
            Definition::TypeAlias(alias) => self.type_alias(
                alias.public,
                alias.alias.as_str(),
                &alias.parameters,
                &alias.type_ast,
                &alias.deprecation,
            ),
            Definition::CustomType(ct) => self.custom_type(ct),
            Definition::Import(i) => import(i),
            Definition::ModuleConstant(constant) => module_constant(constant),
        }
    }

    /// Lowers a definition with its doc comments.
    pub fn documented_definition<'a>(&mut self, s: &'a Definition) -> (r: Document<'a>)
        requires
            definition_ok(s),
        ensures
            r@ == documented_low(s, old(self)@).doc,
            final(self)@ == documented_low(s, old(self)@).trivia,
    {
        let comments = self.doc_comments(s.location().start);
        comments.append(self.definition(s).group()).group()
    }

    /// Lowers a definition with the comments before it, its target
    /// annotation and its doc comments.
    pub fn targeted_definition<'a>(&mut self, definition: &'a TargetedDefinition) -> (r: Document<
        'a,
    >)
        requires
            definition_ok(&definition.definition),
        ensures
            r@ == targeted_low(definition, old(self)@).doc,
            final(self)@ == targeted_low(definition, old(self)@).trivia,
    {
        let target = definition.target;
        let definition = &definition.definition;
        let start = definition.location().start;
        let comments = self.pop_comments(start);
        let document = self.documented_definition(definition);
        let document = match target {
            None => document,
            Some(Target::Erlang) => text("@target(erlang)").append(line()).append(document),
            Some(Target::JavaScript) => text("@target(javascript)").append(line()).append(
                document,
            ),
        };
        commented(document, &comments)
    }

    /// Lowers a whole module.
    pub fn module<'a>(&mut self, module: &'a UntypedModule) -> (r: Document<'a>)
        requires
            module_ok(module),
        ensures
            r@ == module_low(module, old(self)@).doc,
            final(self)@ == module_low(module, old(self)@).trivia,
    {
        let ghost start = self@;
        let definitions = &module.definitions;
        let mut documents: Vec<Document<'a>> = Vec::new();
        let mut previous_was_import = false;
        let mut i: usize = 0;
        assert(docs_of(documents@) =~= definitions_low(definitions@, 0, start).docs);
        while i < definitions.len()
            invariant
                i <= definitions@.len(),
                definitions == &module.definitions,
                module_ok(module),
                i > 0 ==> previous_was_import == (definitions@[i - 1].definition is Import),
                docs_of(documents@) == definitions_low(definitions@, i as int, start).docs,
                self@ == definitions_low(definitions@, i as int, start).trivia,
            decreases definitions@.len() - i,
        {
            let definition = &definitions[i];
            let is_import = definition.definition.is_import();
            if i == 0 {
            } else if previous_was_import && is_import {
                push_doc(&mut documents, lines(1));
            } else {
                push_doc(&mut documents, lines(2));
            }
            let doc = self.targeted_definition(definition);
            push_doc(&mut documents, doc);
            previous_was_import = is_import;
            i += 1;
        }
        let definitions = concat(documents);
        let doc_comments = join(prefixed("///", self.remaining_doc_comments()), line());
        let trailing = self.pop_comments(u32::MAX);
        let comments = match printed_comments_at_end(&trailing) {
            Some(comments) => comments,
            None => nil(),
        };
        let module_comments = if self.remaining_module_comments().len() != 0 {
            join(prefixed("////", self.remaining_module_comments()), line()).append(line())
        } else {
            nil()
        };
        let mut non_empty: Vec<Document<'a>> = Vec::new();
        assert(docs_of(non_empty@) =~= Seq::<Doc>::empty());
        keep(&mut non_empty, module_comments);
        keep(&mut non_empty, definitions);
        keep(&mut non_empty, doc_comments);
        keep(&mut non_empty, comments);
        join(non_empty, line()).append(line())
    }
}

/// Whether a statement is the placeholder of a missing body.
pub fn is_placeholder(statement: &Statement) -> (r: bool)
    ensures
        r == (statement matches Statement::Expression(UntypedExpr::Placeholder { .. })),
{
    match statement {
        Statement::Expression(e) => e.is_placeholder(),
        _ => false,
    }
}

/// Between two definitions stands one line break, with at most one blank
/// line: the documents of the first `n` definitions are the definitions at
/// the even places and line breaks at the odd ones.
pub proof fn definitions_are_separated(definitions: Seq<TargetedDefinition>, n: int, t: Trivia)
    requires
        0 <= n <= definitions.len(),
    ensures
        definitions_low(definitions, n, t).docs.len() == (if n == 0 {
            0
        } else {
            2 * n - 1
        }),
        forall|j: int|
            0 <= j < definitions_low(definitions, n, t).docs.len() && j % 2 == 1
                ==> crate::trivia::is_separator(
                #[trigger] definitions_low(definitions, n, t).docs[j],
            ),
    decreases n,
{
    if n > 0 {
        definitions_are_separated(definitions, n - 1, t);
        let before = definitions_low(definitions, n - 1, t);
        let next = targeted_low(&definitions[n - 1], before.trivia);
        let docs = if n == 1 {
            before.docs
        } else if definitions[n - 2].definition is Import && definitions[n - 1].definition
            is Import {
            before.docs.push(Doc::lines(1))
        } else {
            before.docs.push(Doc::lines(2))
        };
        let all = definitions_low(definitions, n, t).docs;
        assert(all == docs.push(next.doc));
        assert forall|j: int| 0 <= j < all.len() && j % 2 == 1 implies crate::trivia::is_separator(
            #[trigger] all[j],
        ) by {
            if j < before.docs.len() {
                assert(all[j] == before.docs[j]);
            }
        }
    }
}

} // verus!
