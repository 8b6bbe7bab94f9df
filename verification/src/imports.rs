//! The order of the names that an import lists.

use std::cmp::Ordering;
use vstd::prelude::*;
use vstd::string::*;
use crate::ast::UnqualifiedImport;
use crate::literal::chars_of;

verus! {

/// Whether `a` comes before `b` in the order of strings: character by
/// character, by code point, a proper prefix before what it is a prefix of.
pub open spec fn name_before(a: Seq<char>, b: Seq<char>) -> bool
    decreases a.len(),
{
    if b.len() == 0 {
        false
    } else if a.len() == 0 {
        true
    } else if a[0] != b[0] {
        (a[0] as u32) < (b[0] as u32)
    } else {
        name_before(a.drop_first(), b.drop_first())
    }
}

/// `sorted` with `x` put behind every import whose name does not come after
/// the name of `x`.
pub open spec fn inserted(sorted: Seq<UnqualifiedImport>, x: UnqualifiedImport) -> Seq<
    UnqualifiedImport,
>
    decreases sorted.len(),
{
    if sorted.len() > 0 && name_before(x.name@, sorted.last().name@) {
        inserted(sorted.drop_last(), x).push(sorted.last())
    } else {
        sorted.push(x)
    }
}

/// The imports in the order of their names; imports of one name keep the
/// order they had.
pub open spec fn sorted_by_name(imports: Seq<UnqualifiedImport>) -> Seq<UnqualifiedImport>
    decreases imports.len(),
{
    if imports.len() == 0 {
        imports
    } else {
        inserted(sorted_by_name(imports.drop_last()), imports.last())
    }
}

/// What the references refer to.
pub open spec fn referents(refs: Seq<&UnqualifiedImport>) -> Seq<UnqualifiedImport> {
    Seq::new(refs.len(), |i: int| *refs[i])
}

/// Whether `a` comes before `b` in the order of strings.
fn text_lt(a: &str, b: &str) -> (r: bool)
    ensures
        r == name_before(a@, b@),
{
    let x = chars_of(a);
    let y = chars_of(b);
    let mut i: usize = 0;
    proof {
        assert(a@.skip(0) =~= a@);
        assert(b@.skip(0) =~= b@);
    }
    while i < x.len() && i < y.len()
        invariant
            i <= x@.len(),
            i <= y@.len(),
            x@ == a@,
            y@ == b@,
            name_before(a@, b@) == name_before(a@.skip(i as int), b@.skip(i as int)),
        decreases x@.len() - i,
    {
        proof {
            assert(a@.skip(i as int)[0] == x@[i as int]);
            assert(b@.skip(i as int)[0] == y@[i as int]);
            assert(a@.skip(i as int).drop_first() =~= a@.skip(i + 1));
            assert(b@.skip(i as int).drop_first() =~= b@.skip(i + 1));
        }
        if x[i] != y[i] {
            return (x[i] as u32) < (y[i] as u32);
        }
        i += 1;
    }
    i < y.len()
}

/// Compares two imports by their names.
fn compare_names(a: &&UnqualifiedImport, b: &&UnqualifiedImport) -> (r: Ordering)
    ensures
        r is Less <==> name_before(a.name@, b.name@),
        r is Greater <==> !name_before(a.name@, b.name@) && name_before(b.name@, a.name@),
{
    if text_lt(a.name.as_str(), b.name.as_str()) {
        Ordering::Less
    } else if text_lt(b.name.as_str(), a.name.as_str()) {
        Ordering::Greater
    } else {
        Ordering::Equal
    }
}

/// Calls `Itertools::sorted_by` of the itertools crate with `compare_names`
/// as its closure and collects what it yields. The adaptor sorts with
/// `slice::sort_by`, a stable sort: the result holds the same imports in
/// ascending order of their names, and imports of one name in the order they
/// came in.
#[verifier::external_body]
fn sort_imports<'a>(imports: Vec<&'a UnqualifiedImport>) -> (r: Vec<&'a UnqualifiedImport>)
    ensures
        referents(r@) == sorted_by_name(referents(imports@)),
{
    itertools::Itertools::sorted_by(imports.into_iter(), |a, b| compare_names(a, b)).collect()
}

/// References to the imports of `imports`, in their order.
pub fn references<'a>(imports: &'a Vec<UnqualifiedImport>) -> (r: Vec<&'a UnqualifiedImport>)
    ensures
        referents(r@) == imports@,
{
    let mut out: Vec<&'a UnqualifiedImport> = Vec::new();
    let mut i: usize = 0;
    while i < imports.len()
        invariant
            i <= imports@.len(),
            out@.len() == i,
            forall|k: int| 0 <= k < i ==> *out@[k] == imports@[k],
        decreases imports@.len() - i,
    {
        out.push(&imports[i]);
        i += 1;
    }
    assert(referents(out@) =~= imports@);
    out
}

/// The imports in the order of their names.
pub fn sorted<'a>(imports: &'a Vec<UnqualifiedImport>) -> (r: Vec<&'a UnqualifiedImport>)
    ensures
        referents(r@) == sorted_by_name(imports@),
{
    sort_imports(references(imports))
}

} // verus!
