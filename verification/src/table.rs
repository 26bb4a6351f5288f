//! The property-table builder: merging the flattened member list into one
//! ordered entry per property name, and the full resolution entry point.

use vstd::prelude::*;

use crate::ast::view_descriptor;
use crate::ast::view_descriptors;
use crate::ast::view_index;
use crate::ast::view_prop_key;
use crate::ast::view_prop_name;
use crate::ast::view_refined;
use crate::ast::view_refined_seq;
use crate::ast::view_type;
use crate::ast::DeclIndex;
use crate::ast::DiagKind;
use crate::ast::Diagnostic;
use crate::ast::PropDescriptor;
use crate::ast::PropKey;
use crate::ast::PropName;
use crate::ast::RefinedMember;
use crate::ast::Tag;
use crate::ast::TypeNode;
use crate::model::PropDescriptorV;
use crate::model::PropNameV;
use crate::resolver::infer_runtime_type;
use crate::resolver::resolve_props;
use crate::semantics::find_entry;
use crate::semantics::refined_key;
use crate::semantics::refined_key_span;
use crate::semantics::refined_optional;
use crate::semantics::spec_build_table;
use crate::semantics::spec_member_tags;
use crate::semantics::spec_prop_name;
use crate::semantics::spec_resolve_props;
use crate::semantics::spec_resolve_table;
use crate::semantics::spec_table_step;
use crate::tagset::TagSet;

verus! {

/// The fuel a plain resolution call runs with: deep enough for any
/// realistic annotation, and the bound after which a circular alias or
/// interface chain is reported instead of followed.
pub const DEFAULT_FUEL: u64 = 256;

/// One in-progress table entry: a property name, its accumulated category
/// set, and whether it is still considered mandatory.
pub struct PropEntry {
    pub name: PropName,
    pub tags: TagSet,
    pub required: bool,
}

/// The finished-table view of an in-progress entry.
pub open spec fn view_entry(e: PropEntry) -> PropDescriptorV {
    PropDescriptorV {
        name: view_prop_name(e.name),
        tags: e.tags.tags(),
        required: e.required,
    }
}

pub open spec fn view_entries(es: Seq<PropEntry>) -> Seq<PropDescriptorV> {
    Seq::new(es.len(), |i: int| view_entry(es[i]))
}

/// Every entry's category set is well-formed.
pub open spec fn entries_inv(es: Seq<PropEntry>) -> bool {
    forall|i: int| 0 <= i < es.len() ==> (#[trigger] es[i]).tags.inv()
}

/// The table name of a property key; a key that is not an identifier or
/// a supported literal is reported and recorded under the empty-string
/// placeholder.
pub fn extract_prop_name(key: &PropKey, key_span: u32, diags: &mut Vec<Diagnostic>) -> (r:
    PropName)
    ensures
        ({
            let (n, ds) = spec_prop_name(view_prop_key(*key), key_span);
            view_prop_name(r) == n && final(diags)@ == old(diags)@ + ds
        }),
{
    match key {
        PropKey::Ident(s) => {
            proof {
                assert(diags@ =~= old(diags)@ + Seq::<Diagnostic>::empty());
            }
            PropName::Ident(s.clone())
        },
        PropKey::StrKey(s) => {
            proof {
                assert(diags@ =~= old(diags)@ + Seq::<Diagnostic>::empty());
            }
            PropName::StrName(s.clone())
        },
        PropKey::NumKey(n) => {
            proof {
                assert(diags@ =~= old(diags)@ + Seq::<Diagnostic>::empty());
            }
            PropName::NumName(*n)
        },
        PropKey::BigIntKey(s) => {
            proof {
                assert(diags@ =~= old(diags)@ + Seq::<Diagnostic>::empty());
            }
            PropName::BigIntName(s.clone())
        },
        PropKey::Unsupported => {
            let d = Diagnostic { span: key_span, kind: DiagKind::UnsupportedPropKey };
            diags.push(d);
            let empty_name = String::new();
            proof {
                assert(diags@ =~= old(diags)@ + seq![d]);
                assert(empty_name@ =~= Seq::<char>::empty());
            }
            PropName::Ident(empty_name)
        },
    }
}

/// Whether two table names are the same property name.
fn prop_name_eq(a: &PropName, b: &PropName) -> (r: bool)
    ensures
        r == (view_prop_name(*a) == view_prop_name(*b)),
{
    match (a, b) {
        (PropName::Ident(x), PropName::Ident(y)) => *x == *y,
        (PropName::StrName(x), PropName::StrName(y)) => *x == *y,
        (PropName::NumName(x), PropName::NumName(y)) => *x == *y,
        (PropName::BigIntName(x), PropName::BigIntName(y)) => *x == *y,
        _ => false,
    }
}

proof fn lemma_find_entry_skip(es: Seq<PropDescriptorV>, name: PropNameV, i: int)
    requires
        0 <= i <= es.len(),
        forall|j: int| 0 <= j < i ==> (#[trigger] es[j]).name != name,
    ensures
        find_entry(es, name) == match find_entry(es.skip(i), name) {
            Some(k) => Some(k + i),
            None => None::<int>,
        },
    decreases i,
{
    if i == 0 {
        assert(es.skip(0) =~= es);
    } else {
        lemma_find_entry_skip(es, name, i - 1);
        assert(es.skip(i - 1)[0] == es[i - 1]);
        assert(es.skip(i - 1).drop_first() =~= es.skip(i));
    }
}

/// The position of the first entry recorded under `name`, if any.
fn find_entry_exec(entries: &Vec<PropEntry>, name: &PropName) -> (r: Option<usize>)
    ensures
        match r {
            Some(i) => i < entries@.len() && find_entry(
                view_entries(entries@),
                view_prop_name(*name),
            ) == Some(i as int),
            None => find_entry(view_entries(entries@), view_prop_name(*name)) is None,
        },
{
    let ghost ev = view_entries(entries@);
    let n = entries.len();
    let mut i: usize = 0;
    while i < n
        invariant
            n == entries.len(),
            i <= n,
            ev == view_entries(entries@),
            ev.len() == n,
            forall|j: int| 0 <= j < i ==> (#[trigger] ev[j]).name != view_prop_name(*name),
        decreases n - i,
    {
        if prop_name_eq(&entries[i].name, name) {
            proof {
                lemma_find_entry_skip(ev, view_prop_name(*name), i as int);
                assert(ev.skip(i as int)[0] == ev[i as int]);
            }
            return Some(i);
        }
        i = i + 1;
    }
    proof {
        lemma_find_entry_skip(ev, view_prop_name(*name), n as int);
        assert(ev.skip(n as int) =~= Seq::<PropDescriptorV>::empty());
    }
    None
}

/// The category set one refined member contributes: the inferred tags of
/// its declared type, the absent-tag singleton when untyped, the function
/// singleton for a method.
fn member_tag_set(
    idx: &DeclIndex,
    m: &RefinedMember,
    fuel: u64,
    diags: &mut Vec<Diagnostic>,
) -> (r: TagSet)
    ensures
        ({
            let (ts, ds) = spec_member_tags(view_index(*idx), view_refined(*m), fuel as nat);
            r.inv() && r.tags() == ts && final(diags)@ == old(diags)@ + ds
        }),
{
    match m {
        RefinedMember::Property(p) => match &p.type_ann {
            Some(ty) => infer_runtime_type(idx, ty, fuel, diags),
            None => {
                let mut s = TagSet::new();
                s.insert(None);
                proof {
                    assert(!Seq::<Option<Tag>>::empty().contains(None::<Tag>));
                    assert(Seq::<Option<Tag>>::empty().push(None) =~= seq![None::<Tag>]);
                    assert(diags@ =~= old(diags)@ + Seq::<Diagnostic>::empty());
                }
                s
            },
        },
        RefinedMember::Getter(p) => match &p.type_ann {
            Some(ty) => infer_runtime_type(idx, ty, fuel, diags),
            None => {
                let mut s = TagSet::new();
                s.insert(None);
                proof {
                    assert(!Seq::<Option<Tag>>::empty().contains(None::<Tag>));
                    assert(Seq::<Option<Tag>>::empty().push(None) =~= seq![None::<Tag>]);
                    assert(diags@ =~= old(diags)@ + Seq::<Diagnostic>::empty());
                }
                s
            },
        },
        RefinedMember::Method(_) => {
            let mut s = TagSet::new();
            s.insert(Some(Tag::TFunction));
            proof {
                assert(!Seq::<Option<Tag>>::empty().contains(Some(Tag::TFunction)));
                assert(Seq::<Option<Tag>>::empty().push(Some(Tag::TFunction)) =~= seq![
                    Some(Tag::TFunction),
                ]);
                assert(diags@ =~= old(diags)@ + Seq::<Diagnostic>::empty());
            }
            s
        },
    }
}

/// Merge a flattened member list into the ordered property table: one
/// entry per structurally distinct name, in first-seen order; a later
/// occurrence of a name extends the entry's category set and, when
/// optional, downgrades it to non-required.
pub fn build_prop_table(
    idx: &DeclIndex,
    members: &Vec<RefinedMember>,
    fuel: u64,
    diags: &mut Vec<Diagnostic>,
) -> (r: Vec<PropDescriptor>)
    ensures
        ({
            let (es, ds) = spec_build_table(
                view_index(*idx),
                view_refined_seq(members@),
                fuel as nat,
            );
            view_descriptors(r@) == es && final(diags)@ == old(diags)@ + ds
        }),
{
    let ghost iv = view_index(*idx);
    let ghost mv = view_refined_seq(members@);
    let mut entries: Vec<PropEntry> = Vec::new();
    let n = members.len();
    let mut i: usize = 0;
    while i < n
        invariant
            n == members.len(),
            i <= n,
            iv == view_index(*idx),
            mv == view_refined_seq(members@),
            mv.len() == n,
            entries_inv(entries@),
            view_entries(entries@) == spec_build_table(iv, mv.take(i as int), fuel as nat).0,
            diags@ == old(diags)@ + spec_build_table(iv, mv.take(i as int), fuel as nat).1,
        decreases n - i,
    {
        let m = &members[i];
        let ghost es0 = view_entries(entries@);
        let (key, key_span, optional) = match m {
            RefinedMember::Property(p) => (&p.key, p.key_span, p.optional),
            RefinedMember::Getter(p) => (&p.key, p.key_span, p.optional),
            RefinedMember::Method(s) => (&s.key, s.key_span, s.optional),
        };
        proof {
            assert(view_prop_key(*key) == refined_key(view_refined(*m)));
            assert(key_span == refined_key_span(view_refined(*m)));
            assert(optional == refined_optional(view_refined(*m)));
        }
        let name = extract_prop_name(key, key_span, diags);
        let tags = member_tag_set(idx, m, fuel, diags);
        let found = find_entry_exec(&entries, &name);
        match found {
            Some(pos) => {
                let ghost ebefore = entries@;
                let mut e = entries.remove(pos);
                if optional {
                    e.required = false;
                }
                e.tags.extend_from(&tags);
                let ghost e2 = e;
                entries.insert(pos, e);
                proof {
                    assert(entries@ =~= ebefore.update(pos as int, e2));
                }
            },
            None => {
                entries.push(PropEntry { name, tags, required: !optional });
            },
        }
        proof {
            assert(mv.take(i + 1 as int).drop_last() =~= mv.take(i as int));
            assert(mv.take(i + 1 as int).last() == mv[i as int]);
            let step = spec_table_step(iv, es0, mv[i as int], fuel as nat);
            assert(view_entries(entries@) =~= step.0);
            assert(diags@ =~= old(diags)@ + spec_build_table(
                iv,
                mv.take(i + 1 as int),
                fuel as nat,
            ).1);
        }
        i = i + 1;
    }
    proof {
        assert(mv.take(n as int) =~= mv);
    }
    // Serialize the finished entries in first-seen order.
    let mut out: Vec<PropDescriptor> = Vec::new();
    let total = entries.len();
    let mut j: usize = 0;
    while j < total
        invariant
            total == entries.len(),
            j <= total,
            entries_inv(entries@),
            view_descriptors(out@) == view_entries(entries@).take(j as int),
        decreases total - j,
    {
        let e = &entries[j];
        let name = e.name.clone();
        let tags = e.tags.to_tags();
        let dsc = PropDescriptor { name, tags, required: e.required };
        proof {
            assert(view_descriptor(dsc) == view_entry(entries@[j as int]));
        }
        let ghost out0 = out@;
        out.push(dsc);
        proof {
            assert(view_descriptors(out0).len() == out0.len());
            assert(view_descriptors(out@) =~= view_entries(entries@).take(j + 1 as int));
        }
        j = j + 1;
    }
    proof {
        assert(view_entries(entries@).take(total as int) =~= view_entries(entries@));
    }
    out
}

/// Resolve one annotation into its property table: flatten its members,
/// then merge them, reporting every diagnostic in traversal order.
pub fn resolve_prop_table(
    idx: &DeclIndex,
    t: &TypeNode,
    fuel: u64,
    diags: &mut Vec<Diagnostic>,
) -> (r: Vec<PropDescriptor>)
    ensures
        ({
            let (es, ds) = spec_resolve_table(view_index(*idx), view_type(*t), fuel as nat);
            view_descriptors(r@) == es && final(diags)@ == old(diags)@ + ds
        }),
{
    let members = resolve_props(idx, t, fuel, diags);
    let r = build_prop_table(idx, &members, fuel, diags);
    proof {
        assert(diags@ =~= old(diags)@ + (spec_resolve_props(
            view_index(*idx),
            view_type(*t),
            fuel as nat,
        ).1 + spec_build_table(
            view_index(*idx),
            view_refined_seq(members@),
            fuel as nat,
        ).1));
    }
    r
}

/// Resolve one annotation with the default recursion allowance.
pub fn build_props_type(idx: &DeclIndex, t: &TypeNode, diags: &mut Vec<Diagnostic>) -> (r: Vec<
    PropDescriptor,
>)
    ensures
        ({
            let (es, ds) = spec_resolve_table(
                view_index(*idx),
                view_type(*t),
                DEFAULT_FUEL as nat,
            );
            view_descriptors(r@) == es && final(diags)@ == old(diags)@ + ds
        }),
{
    resolve_prop_table(idx, t, DEFAULT_FUEL, diags)
}

} // verus!
