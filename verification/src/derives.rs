//! The capability reconciler: which capabilities the mirror is given, so
//! that none is requested twice.
use crate::schema::{schema_attrs, texts, SchemaAttr, SchemaAttrView};
use vstd::prelude::*;

verus! {

/// Whether the record itself requests the capability `name`.
pub open spec fn requested(attrs: Seq<SchemaAttrView>, name: Seq<char>) -> bool {
    exists|i: int|
        0 <= i < attrs.len() && (#[trigger] attrs[i]) is Derive && attrs[i]->Derive_0.contains(
            name,
        )
}

/// The capabilities that the mirror is given: those of `extra` that the
/// record does not request itself, each once, in the order of `extra`.
pub open spec fn reconciled(extra: Seq<Seq<char>>, attrs: Seq<SchemaAttrView>) -> Seq<Seq<char>>
    decreases extra.len(),
{
    if extra.len() == 0 {
        extra
    } else {
        let front = reconciled(extra.drop_last(), attrs);
        if requested(attrs, extra.last()) || front.contains(extra.last()) {
            front
        } else {
            front.push(extra.last())
        }
    }
}

/// The reconciled capabilities are the set of `extra` less the set that the
/// record requests, and none of them occurs twice.
pub proof fn lemma_reconciled_is_difference(extra: Seq<Seq<char>>, attrs: Seq<SchemaAttrView>)
    ensures
        reconciled(extra, attrs).no_duplicates(),
        forall|name: Seq<char>| #[trigger]
            reconciled(extra, attrs).contains(name) <==> extra.contains(name) && !requested(
                attrs,
                name,
            ),
    decreases extra.len(),
{
    if extra.len() > 0 {
        let front = reconciled(extra.drop_last(), attrs);
        lemma_reconciled_is_difference(extra.drop_last(), attrs);
        assert forall|name: Seq<char>| #[trigger]
            reconciled(extra, attrs).contains(name) <==> extra.contains(name) && !requested(
                attrs,
                name,
            ) by {
            if extra.contains(name) {
                let k = choose|k: int| 0 <= k < extra.len() && extra[k] == name;
                if k < extra.len() - 1 {
                    assert(extra.drop_last()[k] == name);
                }
            }
            if extra.drop_last().contains(name) {
                let k = choose|k: int| 0 <= k < extra.drop_last().len() && extra.drop_last()[k] == name;
                assert(extra[k] == name);
            }
            if front.contains(name) {
                let k = choose|k: int| 0 <= k < front.len() && front[k] == name;
                if reconciled(extra, attrs) != front {
                    assert(reconciled(extra, attrs)[k] == name);
                }
            }
            if reconciled(extra, attrs).contains(name) && reconciled(extra, attrs) != front {
                let k = choose|k: int| 0 <= k < reconciled(extra, attrs).len() && reconciled(extra, attrs)[k] == name;
                if k < front.len() {
                    assert(front[k] == name);
                } else {
                    assert(name == extra.last());
                    assert(extra[extra.len() - 1] == name);
                }
            }
            if name == extra.last() {
                assert(extra[extra.len() - 1] == name);
                if reconciled(extra, attrs) != front {
                    assert(reconciled(extra, attrs)[front.len() as int] == name);
                }
            }
        }
    }
}

/// Whether `name` is among `paths`.
fn contains_text(paths: &Vec<String>, name: &String) -> (r: bool)
    ensures
        r == texts(paths@).contains(name@),
{
    let mut i: usize = 0;
    while i < paths.len()
        invariant
            i <= paths.len(),
            forall|j: int| 0 <= j < i ==> (#[trigger] texts(paths@)[j]) != name@,
        decreases paths.len() - i,
    {
        if paths[i] == *name {
            assert(texts(paths@)[i as int] == name@);
            return true;
        }
        i += 1;
    }
    false
}

/// Whether the record requests the capability `name` itself.
fn is_requested(attrs: &Vec<SchemaAttr>, name: &String) -> (r: bool)
    ensures
        r == requested(schema_attrs(attrs@), name@),
{
    let ghost views = schema_attrs(attrs@);
    let mut i: usize = 0;
    while i < attrs.len()
        invariant
            i <= attrs.len(),
            views == schema_attrs(attrs@),
            forall|j: int| 0 <= j < i ==> !((#[trigger] views[j]) is Derive && views[j]->Derive_0.contains(name@)),
        decreases attrs.len() - i,
    {
        if let SchemaAttr::Derive(paths) = &attrs[i] {
            if contains_text(paths, name) {
                assert(views[i as int] is Derive && views[i as int]->Derive_0.contains(name@));
                return true;
            }
        }
        assert(views[i as int] == attrs@[i as int]@);
        i += 1;
    }
    false
}

/// Computes the capabilities that the mirror of a record with the
/// annotations `attrs` is given, out of `extra_derive`.
pub fn get_derive_macros(attrs: &Vec<SchemaAttr>, extra_derive: &Vec<String>) -> (r: Vec<String>)
    ensures
        texts(r@) == reconciled(texts(extra_derive@), schema_attrs(attrs@)),
{
    let ghost extra = texts(extra_derive@);
    let mut left: Vec<String> = Vec::new();
    let mut i: usize = 0;
    assert(texts(left@) =~= reconciled(extra.take(0), schema_attrs(attrs@)));
    while i < extra_derive.len()
        invariant
            i <= extra_derive.len(),
            extra == texts(extra_derive@),
            texts(left@) == reconciled(extra.take(i as int), schema_attrs(attrs@)),
        decreases extra_derive.len() - i,
    {
        proof {
            assert(extra.take(i + 1).drop_last() =~= extra.take(i as int));
            assert(extra.take(i + 1).last() == extra_derive@[i as int]@);
        }
        let name = &extra_derive[i];
        if !is_requested(attrs, name) && !contains_text(&left, name) {
            let ghost before = texts(left@);
            left.push(name.clone());
            assert(texts(left@) =~= before.push(name@));
        }
        i += 1;
    }
    assert(extra.take(i as int) =~= extra);
    left
}

} // verus!
