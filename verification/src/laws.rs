//! Laws of resolution: determinism, alias transparency, the effect of the
//! optionality-rewriting operators, key-filter complementarity, and the
//! merge behavior of the property table.

use vstd::prelude::*;

use crate::ast::Tag;
use crate::model::DeclIndexV;
use crate::model::PropDescriptorV;
use crate::model::PropKeyV;
use crate::model::PropNameV;
use crate::model::RefNameV;
use crate::model::RefinedMemberV;
use crate::model::TypeKindV;
use crate::model::TypeNodeV;
use crate::semantics::find_entry;
use crate::semantics::key_in;
use crate::semantics::refined_key;
use crate::semantics::refined_key_span;
use crate::semantics::refined_optional;
use crate::semantics::set_optional_all;
use crate::semantics::spec_build_table;
use crate::semantics::spec_filter_keys;
use crate::semantics::spec_member_tags;
use crate::semantics::spec_prop_name;
use crate::semantics::spec_resolve_keys;
use crate::semantics::spec_resolve_props;
use crate::semantics::spec_resolve_ref;
use crate::semantics::spec_resolve_table;
use crate::semantics::spec_table_step;
use crate::tagset::tag_extend;
use crate::tagset::tag_insert;

verus! {

// ---------------------------------------------------------------------
// Vocabulary.
// ---------------------------------------------------------------------

/// The table name a refined member is recorded under.
pub open spec fn member_name(m: RefinedMemberV) -> PropNameV {
    spec_prop_name(refined_key(m), refined_key_span(m)).0
}

/// Whether some member of the list carries this table name.
pub open spec fn has_name(ms: Seq<RefinedMemberV>, n: PropNameV) -> bool {
    exists|j: int| 0 <= j < ms.len() && member_name(#[trigger] ms[j]) == n
}

/// Every member of the list recorded under `n` is non-optional.
pub open spec fn merged_required(ms: Seq<RefinedMemberV>, n: PropNameV) -> bool {
    forall|j: int|
        0 <= j < ms.len() && member_name(#[trigger] ms[j]) == n ==> !refined_optional(ms[j])
}

/// The set union of the tag sets of every member recorded under `n`.
pub open spec fn merged_tags(
    idx: DeclIndexV,
    ms: Seq<RefinedMemberV>,
    n: PropNameV,
    fuel: nat,
) -> Set<Option<Tag>> {
    Set::new(
        |t: Option<Tag>|
            exists|j: int|
                0 <= j < ms.len() && member_name(#[trigger] ms[j]) == n && spec_member_tags(
                    idx,
                    ms[j],
                    fuel,
                ).0.contains(t),
    )
}

/// The values of an ordered tag sequence, as a set.
pub open spec fn tag_set_of(s: Seq<Option<Tag>>) -> Set<Option<Tag>> {
    Set::new(|t: Option<Tag>| s.contains(t))
}

/// The set of table names of a descriptor sequence.
pub open spec fn table_names(es: Seq<PropDescriptorV>) -> Set<PropNameV> {
    Set::new(|n: PropNameV| exists|i: int| 0 <= i < es.len() && (#[trigger] es[i]).name == n)
}

// ---------------------------------------------------------------------
// Small facts about searching and tag accumulation.
// ---------------------------------------------------------------------

proof fn lemma_find_entry_some(es: Seq<PropDescriptorV>, n: PropNameV, i: int)
    requires
        find_entry(es, n) == Some(i),
    ensures
        0 <= i < es.len(),
        es[i].name == n,
    decreases es.len(),
{
    if es.len() > 0 && es[0].name != n {
        let inner = find_entry(es.drop_first(), n);
        lemma_find_entry_some(es.drop_first(), n, inner->Some_0);
    }
}

proof fn lemma_find_entry_none(es: Seq<PropDescriptorV>, n: PropNameV)
    requires
        find_entry(es, n) is None,
    ensures
        forall|i: int| 0 <= i < es.len() ==> (#[trigger] es[i]).name != n,
    decreases es.len(),
{
    if es.len() > 0 {
        lemma_find_entry_none(es.drop_first(), n);
        assert forall|i: int| 0 <= i < es.len() implies (#[trigger] es[i]).name != n by {
            if i > 0 {
                assert(es.drop_first()[i - 1] == es[i]);
            }
        }
    }
}

proof fn lemma_tag_insert_set(s: Seq<Option<Tag>>, t: Option<Tag>)
    ensures
        tag_set_of(tag_insert(s, t)) == tag_set_of(s).insert(t),
{
    assert forall|x: Option<Tag>|
        tag_insert(s, t).contains(x) implies s.contains(x) || x == t by {
        let j = choose|j: int| 0 <= j < tag_insert(s, t).len() && tag_insert(s, t)[j] == x;
        if !s.contains(t) && j < s.len() {
            assert(s[j] == x);
        }
    }
    assert forall|x: Option<Tag>|
        s.contains(x) || x == t implies tag_insert(s, t).contains(x) by {
        if s.contains(x) {
            let j = choose|j: int| 0 <= j < s.len() && s[j] == x;
            assert(tag_insert(s, t)[j] == x);
        } else if !s.contains(t) {
            assert(tag_insert(s, t)[s.len() as int] == x);
        }
    }
    assert(tag_set_of(tag_insert(s, t)) =~= tag_set_of(s).insert(t));
}

proof fn lemma_tag_extend_set(a: Seq<Option<Tag>>, b: Seq<Option<Tag>>)
    ensures
        tag_set_of(tag_extend(a, b)) == tag_set_of(a).union(tag_set_of(b)),
    decreases b.len(),
{
    if b.len() == 0 {
        assert(tag_set_of(tag_extend(a, b)) =~= tag_set_of(a).union(tag_set_of(b)));
    } else {
        lemma_tag_extend_set(a, b.drop_last());
        lemma_tag_insert_set(tag_extend(a, b.drop_last()), b.last());
        assert forall|t: Option<Tag>| tag_set_of(b).contains(t) implies tag_set_of(
            b.drop_last(),
        ).contains(t) || t == b.last() by {
            let j = choose|j: int| 0 <= j < b.len() && b[j] == t;
            if j < b.len() - 1 {
                assert(b.drop_last()[j] == t);
            }
        }
        assert forall|t: Option<Tag>|
            tag_set_of(b.drop_last()).contains(t) implies tag_set_of(b).contains(t) by {
            let j = choose|j: int| 0 <= j < b.drop_last().len() && b.drop_last()[j] == t;
            assert(b[j] == t);
        }
        assert(b.contains(b.last()));
        assert(tag_set_of(tag_extend(a, b)) =~= tag_set_of(a).union(tag_set_of(b)));
    }
}

// ---------------------------------------------------------------------
// The merge law of the table builder.
// ---------------------------------------------------------------------

/// How the property table merges its input, in full: the table holds one
/// entry per distinct member name, exactly the names that occur; an
/// entry's required flag is true exactly when every occurrence of its
/// name is non-optional; and an entry's tag set is the set union of the
/// tag sets its occurrences contribute.
pub proof fn lemma_build_table_merge(
    idx: DeclIndexV,
    ms: Seq<RefinedMemberV>,
    fuel: nat,
)
    ensures
        ({
            let es = spec_build_table(idx, ms, fuel).0;
            &&& forall|i: int, k: int| 0 <= i < k < es.len() ==> es[i].name != es[k].name
            &&& forall|i: int| 0 <= i < es.len() ==> has_name(ms, (#[trigger] es[i]).name)
            &&& forall|n: PropNameV|
                has_name(ms, n) ==> exists|i: int|
                    0 <= i < es.len() && (#[trigger] es[i]).name == n
            &&& forall|i: int|
                0 <= i < es.len() ==> (#[trigger] es[i]).required == merged_required(
                    ms,
                    es[i].name,
                )
            &&& forall|i: int|
                0 <= i < es.len() ==> tag_set_of((#[trigger] es[i]).tags) == merged_tags(
                    idx,
                    ms,
                    es[i].name,
                    fuel,
                )
        }),
    decreases ms.len(),
{
    if ms.len() == 0 {
    } else {
        let prev = ms.drop_last();
        lemma_build_table_merge(idx, prev, fuel);
        let es0 = spec_build_table(idx, prev, fuel).0;
        let m = ms.last();
        let nm = member_name(m);
        let mt = spec_member_tags(idx, m, fuel).0;
        let es = spec_build_table(idx, ms, fuel).0;
        assert(es == spec_table_step(idx, es0, m, fuel).0);

        // Occurrence bookkeeping between `prev` and `ms`.
        assert forall|n: PropNameV| n != nm implies (has_name(ms, n) == has_name(prev, n)
            && merged_required(ms, n) == merged_required(prev, n) && merged_tags(idx, ms, n, fuel)
            =~= merged_tags(idx, prev, n, fuel)) by {
            assert forall|j: int| 0 <= j < prev.len() implies #[trigger] prev[j] == ms[j] by {}
            if has_name(prev, n) {
                let j = choose|j: int| 0 <= j < prev.len() && member_name(#[trigger] prev[j]) == n;
                assert(member_name(ms[j]) == n);
            }
            if has_name(ms, n) {
                let j = choose|j: int| 0 <= j < ms.len() && member_name(#[trigger] ms[j]) == n;
                assert(j < prev.len() && member_name(prev[j]) == n);
            }
            if !merged_required(ms, n) {
                let j = choose|j: int|
                    0 <= j < ms.len() && member_name(#[trigger] ms[j]) == n && refined_optional(
                        ms[j],
                    );
                assert(member_name(prev[j]) == n && refined_optional(prev[j]));
            }
            if !merged_required(prev, n) {
                let j = choose|j: int|
                    0 <= j < prev.len() && member_name(#[trigger] prev[j]) == n && refined_optional(
                        prev[j],
                    );
                assert(member_name(ms[j]) == n && refined_optional(ms[j]));
            }
            assert forall|t: Option<Tag>|
                merged_tags(idx, ms, n, fuel).contains(t) implies merged_tags(
                idx,
                prev,
                n,
                fuel,
            ).contains(t) by {
                let j = choose|j: int|
                    0 <= j < ms.len() && member_name(#[trigger] ms[j]) == n && spec_member_tags(
                        idx,
                        ms[j],
                        fuel,
                    ).0.contains(t);
                assert(j < prev.len());
                assert(member_name(prev[j]) == n && spec_member_tags(
                    idx,
                    prev[j],
                    fuel,
                ).0.contains(t));
            }
            assert forall|t: Option<Tag>|
                merged_tags(idx, prev, n, fuel).contains(t) implies merged_tags(
                idx,
                ms,
                n,
                fuel,
            ).contains(t) by {
                let j = choose|j: int|
                    0 <= j < prev.len() && member_name(#[trigger] prev[j]) == n
                        && spec_member_tags(idx, prev[j], fuel).0.contains(t);
                assert(member_name(ms[j]) == n && spec_member_tags(idx, ms[j], fuel).0.contains(
                    t,
                ));
            }
        }
        assert(has_name(ms, nm)) by {
            assert(member_name(ms[ms.len() - 1]) == nm);
        }
        assert forall|t: Option<Tag>| merged_tags(idx, ms, nm, fuel).contains(t) implies
            merged_tags(idx, prev, nm, fuel).contains(t) || mt.contains(t) by {
            let j = choose|j: int|
                0 <= j < ms.len() && member_name(#[trigger] ms[j]) == nm && spec_member_tags(
                    idx,
                    ms[j],
                    fuel,
                ).0.contains(t);
            if j < prev.len() {
                assert(prev[j] == ms[j]);
                assert(member_name(prev[j]) == nm && spec_member_tags(
                    idx,
                    prev[j],
                    fuel,
                ).0.contains(t));
            }
        }
        assert forall|t: Option<Tag>|
            merged_tags(idx, prev, nm, fuel).contains(t) || mt.contains(t) implies merged_tags(
            idx,
            ms,
            nm,
            fuel,
        ).contains(t) by {
            if merged_tags(idx, prev, nm, fuel).contains(t) {
                let j = choose|j: int|
                    0 <= j < prev.len() && member_name(#[trigger] prev[j]) == nm
                        && spec_member_tags(idx, prev[j], fuel).0.contains(t);
                assert(member_name(ms[j]) == nm && spec_member_tags(idx, ms[j], fuel).0.contains(
                    t,
                ));
            } else {
                assert(member_name(ms[ms.len() - 1]) == nm && spec_member_tags(
                    idx,
                    ms[ms.len() - 1],
                    fuel,
                ).0.contains(t));
            }
        }
        assert(!merged_required(ms, nm) == (!merged_required(prev, nm) || refined_optional(m)))
            by {
            if !merged_required(ms, nm) {
                let j = choose|j: int|
                    0 <= j < ms.len() && member_name(#[trigger] ms[j]) == nm && refined_optional(
                        ms[j],
                    );
                if j < prev.len() {
                    assert(member_name(prev[j]) == nm && refined_optional(prev[j]));
                }
            }
            if !merged_required(prev, nm) {
                let j = choose|j: int|
                    0 <= j < prev.len() && member_name(#[trigger] prev[j]) == nm
                        && refined_optional(prev[j]);
                assert(member_name(ms[j]) == nm && refined_optional(ms[j]));
            }
            if refined_optional(m) {
                assert(member_name(ms[ms.len() - 1]) == nm && refined_optional(ms[ms.len() - 1]));
            }
        }

        match find_entry(es0, nm) {
            Some(i0) => {
                lemma_find_entry_some(es0, nm, i0);
                lemma_tag_extend_set(es0[i0].tags, mt);
                assert(merged_tags(idx, ms, nm, fuel) =~= merged_tags(idx, prev, nm, fuel).union(
                    tag_set_of(mt),
                ));
                assert(es == es0.update(
                    i0,
                    PropDescriptorV {
                        name: es0[i0].name,
                        tags: tag_extend(es0[i0].tags, mt),
                        required: es0[i0].required && !refined_optional(m),
                    },
                ));
                assert forall|i: int| 0 <= i < es.len() implies (#[trigger] es[i]).name
                    == es0[i].name by {}
                assert forall|n: PropNameV| has_name(ms, n) implies exists|i: int|
                    0 <= i < es.len() && (#[trigger] es[i]).name == n by {
                    if n == nm {
                        assert(es[i0].name == n);
                    } else {
                        assert(has_name(prev, n));
                        let i = choose|i: int|
                            0 <= i < es0.len() && (#[trigger] es0[i]).name == n;
                        assert(es[i].name == n);
                    }
                }
                assert forall|i: int| 0 <= i < es.len() implies (#[trigger] es[i]).required
                    == merged_required(ms, es[i].name) by {
                    if i == i0 {
                        assert(es[i0].required == (es0[i0].required && !refined_optional(m)));
                    } else {
                        assert(es[i] == es0[i]);
                        assert(es0[i].name != nm);
                    }
                }
                assert forall|i: int| 0 <= i < es.len() implies tag_set_of(
                    (#[trigger] es[i]).tags,
                ) == merged_tags(idx, ms, es[i].name, fuel) by {
                    if i == i0 {
                    } else {
                        assert(es[i] == es0[i]);
                        assert(es0[i].name != nm);
                        assert(merged_tags(idx, ms, es0[i].name, fuel) =~= merged_tags(
                            idx,
                            prev,
                            es0[i].name,
                            fuel,
                        ));
                    }
                }
            },
            None => {
                lemma_find_entry_none(es0, nm);
                // No earlier occurrence of the name: otherwise the
                // induction hypothesis would have produced an entry.
                assert(!has_name(prev, nm)) by {
                    if has_name(prev, nm) {
                        let i = choose|i: int|
                            0 <= i < es0.len() && (#[trigger] es0[i]).name == nm;
                        assert(false);
                    }
                }
                assert(merged_required(prev, nm));
                assert(merged_tags(idx, ms, nm, fuel) =~= tag_set_of(mt)) by {
                    if exists|t: Option<Tag>| merged_tags(idx, prev, nm, fuel).contains(t) {
                        let t = choose|t: Option<Tag>|
                            merged_tags(idx, prev, nm, fuel).contains(t);
                        let j = choose|j: int|
                            0 <= j < prev.len() && member_name(#[trigger] prev[j]) == nm
                                && spec_member_tags(idx, prev[j], fuel).0.contains(t);
                        assert(has_name(prev, nm));
                    }
                }
                let newe = PropDescriptorV {
                    name: spec_prop_name(refined_key(m), refined_key_span(m)).0,
                    tags: mt,
                    required: !refined_optional(m),
                };
                assert(es == es0.push(newe));
                assert(newe.name == nm);
                assert(merged_required(ms, nm) == !refined_optional(m));
                assert forall|n: PropNameV| has_name(ms, n) implies exists|i: int|
                    0 <= i < es.len() && (#[trigger] es[i]).name == n by {
                    if n == nm {
                        assert(es[es0.len() as int].name == n);
                    } else {
                        assert(has_name(prev, n));
                        let i = choose|i: int|
                            0 <= i < es0.len() && (#[trigger] es0[i]).name == n;
                        assert(es[i].name == n);
                    }
                }
                assert forall|i: int| 0 <= i < es.len() implies (#[trigger] es[i]).required
                    == merged_required(ms, es[i].name) by {
                    if i < es0.len() {
                        assert(es[i] == es0[i]);
                        assert(es0[i].name != nm);
                    } else {
                        assert(es[i] == newe);
                    }
                }
                assert forall|i: int| 0 <= i < es.len() implies tag_set_of(
                    (#[trigger] es[i]).tags,
                ) == merged_tags(idx, ms, es[i].name, fuel) by {
                    if i < es0.len() {
                        assert(es[i] == es0[i]);
                        assert(es0[i].name != nm);
                        assert(merged_tags(idx, ms, es0[i].name, fuel) =~= merged_tags(
                            idx,
                            prev,
                            es0[i].name,
                            fuel,
                        ));
                    } else {
                        assert(es[i] == newe);
                    }
                }
            },
        }
    }
}

// ---------------------------------------------------------------------
// Determinism.
// ---------------------------------------------------------------------

/// Resolution is deterministic: any two descriptor tables produced for
/// the same node against the same declaration index, with the same
/// recursion allowance, are identical in order and content, and so are
/// the reported diagnostics.
pub proof fn lemma_resolution_deterministic(
    r1: (Seq<PropDescriptorV>, Seq<crate::ast::Diagnostic>),
    r2: (Seq<PropDescriptorV>, Seq<crate::ast::Diagnostic>),
    idx: DeclIndexV,
    t: TypeNodeV,
    fuel: nat,
)
    requires
        r1 == spec_resolve_table(idx, t, fuel),
        r2 == spec_resolve_table(idx, t, fuel),
    ensures
        r1.0 == r2.0,
        r1.1 == r2.1,
{
}

// ---------------------------------------------------------------------
// Alias transparency.
// ---------------------------------------------------------------------

/// A reference to an alias flattens to exactly the members of the aliased
/// type, so the descriptor table built from the reference equals the
/// table built from the aliased type's own member list.
pub proof fn lemma_alias_transparent(
    idx: DeclIndexV,
    span: u32,
    name: RefNameV,
    args: Seq<TypeNodeV>,
    fuel: nat,
)
    requires
        fuel >= 1,
        idx.lookup_alias(name.sym, name.scope) is Some,
    ensures
        ({
            let aliased = idx.lookup_alias(name.sym, name.scope)->Some_0;
            let refnode = TypeNodeV { span, kind: TypeKindV::Ref(name, args) };
            &&& spec_resolve_props(idx, refnode, fuel) == spec_resolve_props(
                idx,
                aliased,
                (fuel - 1) as nat,
            )
            &&& spec_resolve_table(idx, refnode, fuel).0 == spec_build_table(
                idx,
                spec_resolve_props(idx, aliased, (fuel - 1) as nat).0,
                fuel,
            ).0
        }),
{
    let aliased = idx.lookup_alias(name.sym, name.scope)->Some_0;
    let refnode = TypeNodeV { span, kind: TypeKindV::Ref(name, args) };
    assert(spec_resolve_props(idx, refnode, fuel) == spec_resolve_ref(
        idx,
        span,
        name,
        args,
        fuel,
    ));
}

// ---------------------------------------------------------------------
// The optionality-rewriting operators.
// ---------------------------------------------------------------------

/// Applying the optional-forcing operator to any type yields a table in
/// which no property is required, whatever the type's own optionality.
pub proof fn lemma_partial_forces_optional(
    idx: DeclIndexV,
    span: u32,
    name: RefNameV,
    args: Seq<TypeNodeV>,
    fuel: nat,
)
    requires
        fuel >= 1,
        name.unresolved,
        name.sym == "Partial"@,
        idx.lookup_alias(name.sym, name.scope) is None,
        idx.lookup_interface(name.sym, name.scope) is None,
        args.len() >= 1,
    ensures
        ({
            let refnode = TypeNodeV { span, kind: TypeKindV::Ref(name, args) };
            let es = spec_resolve_table(idx, refnode, fuel).0;
            forall|i: int| 0 <= i < es.len() ==> !(#[trigger] es[i]).required
        }),
{
    let refnode = TypeNodeV { span, kind: TypeKindV::Ref(name, args) };
    assert(spec_resolve_props(idx, refnode, fuel) == spec_resolve_ref(
        idx,
        span,
        name,
        args,
        fuel,
    ));
    let inner = spec_resolve_props(idx, args[0], (fuel - 1) as nat).0;
    let ms = set_optional_all(inner, true);
    assert(spec_resolve_props(idx, refnode, fuel).0 == ms);
    lemma_build_table_merge(idx, ms, fuel);
    let es = spec_resolve_table(idx, refnode, fuel).0;
    assert forall|i: int| 0 <= i < es.len() implies !(#[trigger] es[i]).required by {
        let j = choose|j: int| 0 <= j < ms.len() && member_name(#[trigger] ms[j]) == es[i].name;
        assert(refined_optional(ms[j]));
        assert(!merged_required(ms, es[i].name));
    }
}

/// Applying the required-forcing operator to any type yields a table in
/// which every property is required, whatever the type's own optionality.
pub proof fn lemma_required_forces_required(
    idx: DeclIndexV,
    span: u32,
    name: RefNameV,
    args: Seq<TypeNodeV>,
    fuel: nat,
)
    requires
        fuel >= 1,
        name.unresolved,
        name.sym == "Required"@,
        idx.lookup_alias(name.sym, name.scope) is None,
        idx.lookup_interface(name.sym, name.scope) is None,
        args.len() >= 1,
    ensures
        ({
            let refnode = TypeNodeV { span, kind: TypeKindV::Ref(name, args) };
            let es = spec_resolve_table(idx, refnode, fuel).0;
            forall|i: int| 0 <= i < es.len() ==> (#[trigger] es[i]).required
        }),
{
    let refnode = TypeNodeV { span, kind: TypeKindV::Ref(name, args) };
    assert(spec_resolve_props(idx, refnode, fuel) == spec_resolve_ref(
        idx,
        span,
        name,
        args,
        fuel,
    ));
    proof_distinct_operator_names();
    let inner = spec_resolve_props(idx, args[0], (fuel - 1) as nat).0;
    let ms = set_optional_all(inner, false);
    assert(spec_resolve_props(idx, refnode, fuel).0 == ms);
    lemma_build_table_merge(idx, ms, fuel);
    let es = spec_resolve_table(idx, refnode, fuel).0;
    assert forall|i: int| 0 <= i < es.len() implies (#[trigger] es[i]).required by {
        assert forall|j: int|
            0 <= j < ms.len() && member_name(#[trigger] ms[j]) == es[i].name implies
            !refined_optional(ms[j]) by {}
    }
}

/// The spellings of the member-rewriting operator names are pairwise
/// distinct.
proof fn proof_distinct_operator_names()
    ensures
        "Partial"@ != "Required"@,
        "Partial"@ != "Pick"@,
        "Partial"@ != "Omit"@,
        "Required"@ != "Pick"@,
        "Required"@ != "Omit"@,
        "Pick"@ != "Omit"@,
{
    reveal_strlit("Partial");
    reveal_strlit("Required");
    reveal_strlit("Pick");
    reveal_strlit("Omit");
    assert("Partial"@.len() == 7);
    assert("Required"@.len() == 8);
    assert("Pick"@.len() == 4);
    assert("Omit"@.len() == 4);
    assert("Pick"@[0] == 'P');
    assert("Omit"@[0] == 'O');
}

// ---------------------------------------------------------------------
// Key-filter complementarity.
// ---------------------------------------------------------------------

proof fn lemma_filter_keys_subset(
    ms: Seq<RefinedMemberV>,
    keys: Seq<Seq<char>>,
    keep: bool,
    m: RefinedMemberV,
)
    requires
        spec_filter_keys(ms, keys, keep).contains(m),
    ensures
        ms.contains(m),
        key_in(refined_key(m), keys) == keep,
    decreases ms.len(),
{
    if ms.len() > 0 {
        let rest = spec_filter_keys(ms.drop_last(), keys, keep);
        if key_in(refined_key(ms.last()), keys) == keep && m == ms.last() {
            assert(ms[ms.len() - 1] == m);
        } else {
            assert(rest.contains(m)) by {
                let i = choose|i: int|
                    0 <= i < spec_filter_keys(ms, keys, keep).len() && spec_filter_keys(
                        ms,
                        keys,
                        keep,
                    )[i] == m;
                if key_in(refined_key(ms.last()), keys) == keep {
                    assert(spec_filter_keys(ms, keys, keep)[i] == rest.push(ms.last())[i]);
                }
            }
            lemma_filter_keys_subset(ms.drop_last(), keys, keep, m);
            let i = choose|i: int| 0 <= i < ms.drop_last().len() && ms.drop_last()[i] == m;
            assert(ms[i] == m);
        }
    }
}

proof fn lemma_filter_keys_complete(
    ms: Seq<RefinedMemberV>,
    keys: Seq<Seq<char>>,
    j: int,
)
    requires
        0 <= j < ms.len(),
    ensures
        spec_filter_keys(ms, keys, key_in(refined_key(ms[j]), keys)).contains(ms[j]),
    decreases ms.len(),
{
    let keep = key_in(refined_key(ms[j]), keys);
    if j == ms.len() - 1 {
        let rest = spec_filter_keys(ms.drop_last(), keys, keep);
        assert(spec_filter_keys(ms, keys, keep)[rest.len() as int] == ms[j]);
    } else {
        lemma_filter_keys_complete(ms.drop_last(), keys, j);
        let sub = spec_filter_keys(ms.drop_last(), keys, keep);
        let i = choose|i: int| 0 <= i < sub.len() && sub[i] == ms.drop_last()[j];
        assert(ms.drop_last()[j] == ms[j]);
        if key_in(refined_key(ms.last()), keys) == keep {
            assert(spec_filter_keys(ms, keys, keep)[i] == ms[j]);
        } else {
            assert(spec_filter_keys(ms, keys, keep)[i] == ms[j]);
        }
    }
}

/// A key carried by a supported member determines its table name, and the
/// other way round.
proof fn lemma_supported_name_injective(a: RefinedMemberV, b: RefinedMemberV)
    requires
        !(refined_key(a) is Unsupported),
        !(refined_key(b) is Unsupported),
        member_name(a) == member_name(b),
    ensures
        refined_key(a) == refined_key(b),
{
}

/// Filtering a member list by a key set and by its complement partitions
/// the list's table names: together the two keep every name, and no name
/// survives on both sides, provided every member key is a supported form.
pub proof fn lemma_pick_omit_partition(
    idx: DeclIndexV,
    ms: Seq<RefinedMemberV>,
    keys: Seq<Seq<char>>,
    fuel: nat,
)
    requires
        forall|j: int| 0 <= j < ms.len() ==> !((#[trigger] refined_key(ms[j])) is Unsupported),
    ensures
        ({
            let picked = spec_build_table(idx, spec_filter_keys(ms, keys, true), fuel).0;
            let omitted = spec_build_table(idx, spec_filter_keys(ms, keys, false), fuel).0;
            let whole = spec_build_table(idx, ms, fuel).0;
            &&& table_names(picked).union(table_names(omitted)) == table_names(whole)
            &&& table_names(picked).intersect(table_names(omitted)) == Set::<PropNameV>::empty()
        }),
{
    let pick_ms = spec_filter_keys(ms, keys, true);
    let omit_ms = spec_filter_keys(ms, keys, false);
    lemma_build_table_merge(idx, pick_ms, fuel);
    lemma_build_table_merge(idx, omit_ms, fuel);
    lemma_build_table_merge(idx, ms, fuel);
    let picked = spec_build_table(idx, pick_ms, fuel).0;
    let omitted = spec_build_table(idx, omit_ms, fuel).0;
    let whole = spec_build_table(idx, ms, fuel).0;

    // Table names are exactly member names, on all three tables.
    assert forall|n: PropNameV| #[trigger]
        table_names(whole).contains(n) implies table_names(picked).union(
        table_names(omitted),
    ).contains(n) by {
        let i = choose|i: int| 0 <= i < whole.len() && (#[trigger] whole[i]).name == n;
        let j = choose|j: int| 0 <= j < ms.len() && member_name(#[trigger] ms[j]) == n;
        lemma_filter_keys_complete(ms, keys, j);
        if key_in(refined_key(ms[j]), keys) {
            assert(pick_ms.contains(ms[j]));
            let k = choose|k: int| 0 <= k < pick_ms.len() && pick_ms[k] == ms[j];
            assert(member_name(pick_ms[k]) == n);
            assert(has_name(pick_ms, n));
        } else {
            assert(omit_ms.contains(ms[j]));
            let k = choose|k: int| 0 <= k < omit_ms.len() && omit_ms[k] == ms[j];
            assert(member_name(omit_ms[k]) == n);
            assert(has_name(omit_ms, n));
        }
    }
    assert forall|n: PropNameV| #[trigger]
        table_names(picked).contains(n) implies table_names(whole).contains(n) by {
        let i = choose|i: int| 0 <= i < picked.len() && (#[trigger] picked[i]).name == n;
        let j = choose|j: int| 0 <= j < pick_ms.len() && member_name(#[trigger] pick_ms[j]) == n;
        lemma_filter_keys_subset(ms, keys, true, pick_ms[j]);
        let k = choose|k: int| 0 <= k < ms.len() && ms[k] == pick_ms[j];
        assert(member_name(ms[k]) == n);
        assert(has_name(ms, n));
    }
    assert forall|n: PropNameV| #[trigger]
        table_names(omitted).contains(n) implies table_names(whole).contains(n) by {
        let i = choose|i: int| 0 <= i < omitted.len() && (#[trigger] omitted[i]).name == n;
        let j = choose|j: int| 0 <= j < omit_ms.len() && member_name(#[trigger] omit_ms[j]) == n;
        lemma_filter_keys_subset(ms, keys, false, omit_ms[j]);
        let k = choose|k: int| 0 <= k < ms.len() && ms[k] == omit_ms[j];
        assert(member_name(ms[k]) == n);
        assert(has_name(ms, n));
    }
    assert(table_names(picked).union(table_names(omitted)) =~= table_names(whole));

    // No name survives on both sides.
    assert forall|n: PropNameV|
        !(table_names(picked).contains(n) && table_names(omitted).contains(n)) by {
        if table_names(picked).contains(n) && table_names(omitted).contains(n) {
            let i1 = choose|i: int| 0 <= i < picked.len() && (#[trigger] picked[i]).name == n;
            let j1 = choose|j: int|
                0 <= j < pick_ms.len() && member_name(#[trigger] pick_ms[j]) == n;
            let i2 = choose|i: int| 0 <= i < omitted.len() && (#[trigger] omitted[i]).name == n;
            let j2 = choose|j: int|
                0 <= j < omit_ms.len() && member_name(#[trigger] omit_ms[j]) == n;
            lemma_filter_keys_subset(ms, keys, true, pick_ms[j1]);
            lemma_filter_keys_subset(ms, keys, false, omit_ms[j2]);
            let k1 = choose|k: int| 0 <= k < ms.len() && ms[k] == pick_ms[j1];
            let k2 = choose|k: int| 0 <= k < ms.len() && ms[k] == omit_ms[j2];
            lemma_supported_name_injective(ms[k1], ms[k2]);
            assert(key_in(refined_key(ms[k1]), keys));
            assert(!key_in(refined_key(ms[k2]), keys));
            assert(false);
        }
    }
    assert(table_names(picked).intersect(table_names(omitted)) =~= Set::<PropNameV>::empty());
}

/// Applying the keep-filter and the drop-filter operators to the same
/// object type and the same key set partitions the object's property
/// names between the two resulting tables: together they keep every name,
/// and no name appears in both, provided the object's members all carry
/// supported key forms.
pub proof fn lemma_pick_omit_ref_partition(
    idx: DeclIndexV,
    span: u32,
    pick_name: RefNameV,
    omit_name: RefNameV,
    args: Seq<TypeNodeV>,
    fuel: nat,
)
    requires
        fuel >= 1,
        pick_name.unresolved,
        pick_name.sym == "Pick"@,
        idx.lookup_alias(pick_name.sym, pick_name.scope) is None,
        idx.lookup_interface(pick_name.sym, pick_name.scope) is None,
        omit_name.unresolved,
        omit_name.sym == "Omit"@,
        idx.lookup_alias(omit_name.sym, omit_name.scope) is None,
        idx.lookup_interface(omit_name.sym, omit_name.scope) is None,
        args.len() >= 2,
        forall|j: int|
            0 <= j < spec_resolve_props(idx, args[0], (fuel - 1) as nat).0.len() ==> !((
            #[trigger] refined_key(
                spec_resolve_props(idx, args[0], (fuel - 1) as nat).0[j],
            )) is Unsupported),
    ensures
        ({
            let picked = spec_resolve_table(
                idx,
                TypeNodeV { span, kind: TypeKindV::Ref(pick_name, args) },
                fuel,
            ).0;
            let omitted = spec_resolve_table(
                idx,
                TypeNodeV { span, kind: TypeKindV::Ref(omit_name, args) },
                fuel,
            ).0;
            let whole = spec_build_table(
                idx,
                spec_resolve_props(idx, args[0], (fuel - 1) as nat).0,
                fuel,
            ).0;
            &&& table_names(picked).union(table_names(omitted)) == table_names(whole)
            &&& table_names(picked).intersect(table_names(omitted)) == Set::<PropNameV>::empty()
        }),
{
    proof_distinct_operator_names();
    let pick_node = TypeNodeV { span, kind: TypeKindV::Ref(pick_name, args) };
    let omit_node = TypeNodeV { span, kind: TypeKindV::Ref(omit_name, args) };
    let ms = spec_resolve_props(idx, args[0], (fuel - 1) as nat).0;
    let keys = spec_resolve_keys(idx, args[1], (fuel - 1) as nat).0;
    assert(spec_resolve_props(idx, pick_node, fuel) == spec_resolve_ref(
        idx,
        span,
        pick_name,
        args,
        fuel,
    ));
    assert(spec_resolve_props(idx, pick_node, fuel).0 == spec_filter_keys(ms, keys, true));
    assert(spec_resolve_props(idx, omit_node, fuel) == spec_resolve_ref(
        idx,
        span,
        omit_name,
        args,
        fuel,
    ));
    assert(spec_resolve_props(idx, omit_node, fuel).0 == spec_filter_keys(ms, keys, false));
    lemma_pick_omit_partition(idx, ms, keys, fuel);
}

} // verus!

