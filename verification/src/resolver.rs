//! The executable resolvers: property flattening, key-set resolution,
//! indexed-access evaluation, and runtime-category inference.
//!
//! Each function is proved to compute exactly what the corresponding
//! specification function of [`crate::semantics`] says, and to append to
//! the diagnostics collector exactly the reports that specification
//! gives, in order.

use vstd::prelude::*;

use crate::ast::clone_opt_type;
use crate::ast::clone_type;
use crate::ast::clone_types;
use crate::ast::is_word;
use crate::ast::lemma_view_types_index;
use crate::ast::lemma_view_types_len;
use crate::ast::view_index;
use crate::ast::view_interface;
use crate::ast::view_member;
use crate::ast::view_members;
use crate::ast::view_opt_node;
use crate::ast::view_prop_key;
use crate::ast::view_refined;
use crate::ast::view_refined_seq;
use crate::ast::view_refname;
use crate::ast::view_strs;
use crate::ast::view_type;
use crate::ast::view_types;
use crate::ast::DeclIndex;
use crate::ast::DiagKind;
use crate::ast::Diagnostic;
use crate::ast::InterfaceDecl;
use crate::ast::Keyword;
use crate::ast::Lit;
use crate::ast::Member;
use crate::ast::PropKey;
use crate::ast::PropSig;
use crate::ast::RefName;
use crate::ast::RefinedMember;
use crate::ast::Tag;
use crate::ast::TypeKind;
use crate::ast::TypeNode;
use crate::model::DeclIndexV;
use crate::model::InterfaceDeclV;
use crate::model::RefNameV;
use crate::model::TypeNodeV;
use crate::semantics::collect_all_types;
use crate::semantics::collect_keyed_types;
use crate::semantics::collect_str_lits;
use crate::semantics::collapse_types;
use crate::semantics::is_keyed_index;
use crate::semantics::is_numeric_index;
use crate::semantics::is_string_kw;
use crate::semantics::key_in;
use crate::semantics::kw_tag;
use crate::semantics::lit_tag;
use crate::semantics::member_obj_tag;
use crate::semantics::obj_member_tags;
use crate::semantics::refined_key;
use crate::semantics::set_optional_all;
use crate::semantics::spec_filter_keys;
use crate::semantics::spec_indexed_access;
use crate::semantics::spec_infer_list;
use crate::semantics::spec_infer_tags;
use crate::semantics::spec_refine;
use crate::semantics::spec_resolve_keys;
use crate::semantics::spec_resolve_props;
use crate::semantics::spec_resolve_props_list;
use crate::semantics::synth_fn_ref;
use crate::semantics::synth_parent_ref;
use crate::semantics::with_optional;
use crate::tagset::TagSet;

verus! {

// ---------------------------------------------------------------------
// Declaration-index lookup.
// ---------------------------------------------------------------------

proof fn lemma_lookup_alias_skip(iv: DeclIndexV, sym: Seq<char>, scope: u32, i: int)
    requires
        0 <= i <= iv.aliases.len(),
        forall|j: int|
            0 <= j < i ==> !(iv.aliases[j].name == sym && #[trigger] iv.aliases[j].scope == scope),
    ensures
        iv.lookup_alias(sym, scope) == (DeclIndexV {
            aliases: iv.aliases.skip(i),
            ..iv
        }).lookup_alias(sym, scope),
    decreases i,
{
    if i == 0 {
        assert(iv =~= DeclIndexV { aliases: iv.aliases.skip(0), ..iv });
    } else {
        lemma_lookup_alias_skip(iv, sym, scope, i - 1);
        let prev = DeclIndexV { aliases: iv.aliases.skip(i - 1), ..iv };
        assert(prev.aliases[0] == iv.aliases[i - 1]);
        assert(prev.aliases.drop_first() =~= iv.aliases.skip(i));
    }
}

proof fn lemma_lookup_interface_skip(iv: DeclIndexV, sym: Seq<char>, scope: u32, i: int)
    requires
        0 <= i <= iv.interfaces.len(),
        forall|j: int|
            0 <= j < i ==> !(iv.interfaces[j].name == sym && #[trigger] iv.interfaces[j].scope
                == scope),
    ensures
        iv.lookup_interface(sym, scope) == (DeclIndexV {
            interfaces: iv.interfaces.skip(i),
            ..iv
        }).lookup_interface(sym, scope),
    decreases i,
{
    if i == 0 {
        assert(iv =~= DeclIndexV { interfaces: iv.interfaces.skip(0), ..iv });
    } else {
        lemma_lookup_interface_skip(iv, sym, scope, i - 1);
        let prev = DeclIndexV { interfaces: iv.interfaces.skip(i - 1), ..iv };
        assert(prev.interfaces[0] == iv.interfaces[i - 1]);
        assert(prev.interfaces.drop_first() =~= iv.interfaces.skip(i));
    }
}

/// The first alias declaration recorded under (name, scope), if any.
pub fn lookup_alias<'a>(idx: &'a DeclIndex, sym: &String, scope: u32) -> (r: Option<&'a TypeNode>)
    ensures
        match r {
            Some(t) => view_index(*idx).lookup_alias(sym@, scope) == Some(view_type(*t)),
            None => view_index(*idx).lookup_alias(sym@, scope) is None,
        },
{
    let ghost iv = view_index(*idx);
    let n = idx.aliases.len();
    let mut i: usize = 0;
    while i < n
        invariant
            n == idx.aliases.len(),
            i <= n,
            iv == view_index(*idx),
            forall|j: int|
                0 <= j < i ==> !(iv.aliases[j].name == sym@ && #[trigger] iv.aliases[j].scope
                    == scope),
        decreases n - i,
    {
        let a = &idx.aliases[i];
        if a.scope == scope && a.name == *sym {
            proof {
                lemma_lookup_alias_skip(iv, sym@, scope, i as int);
                let suffix = DeclIndexV { aliases: iv.aliases.skip(i as int), ..iv };
                assert(suffix.aliases[0] == iv.aliases[i as int]);
            }
            return Some(&a.ty);
        }
        i = i + 1;
    }
    proof {
        lemma_lookup_alias_skip(iv, sym@, scope, n as int);
        assert(iv.aliases.skip(n as int) =~= Seq::<crate::model::AliasDeclV>::empty());
    }
    None
}

/// The first interface declaration recorded under (name, scope), if any.
pub fn lookup_interface<'a>(idx: &'a DeclIndex, sym: &String, scope: u32) -> (r: Option<
    &'a InterfaceDecl,
>)
    ensures
        match r {
            Some(d) => view_index(*idx).lookup_interface(sym@, scope) == Some(view_interface(*d)),
            None => view_index(*idx).lookup_interface(sym@, scope) is None,
        },
{
    let ghost iv = view_index(*idx);
    let n = idx.interfaces.len();
    let mut i: usize = 0;
    while i < n
        invariant
            n == idx.interfaces.len(),
            i <= n,
            iv == view_index(*idx),
            forall|j: int|
                0 <= j < i ==> !(iv.interfaces[j].name == sym@ && #[trigger] iv.interfaces[j].scope
                    == scope),
        decreases n - i,
    {
        let d = &idx.interfaces[i];
        if d.scope == scope && d.name == *sym {
            proof {
                lemma_lookup_interface_skip(iv, sym@, scope, i as int);
                let suffix = DeclIndexV { interfaces: iv.interfaces.skip(i as int), ..iv };
                assert(suffix.interfaces[0] == iv.interfaces[i as int]);
            }
            return Some(d);
        }
        i = i + 1;
    }
    proof {
        lemma_lookup_interface_skip(iv, sym@, scope, n as int);
        assert(iv.interfaces.skip(n as int) =~= Seq::<InterfaceDeclV>::empty());
    }
    None
}

// ---------------------------------------------------------------------
// Member-list helpers.
// ---------------------------------------------------------------------

/// Property flattening of a member list: properties, getters and methods
/// pass through in declaration order.
pub fn refine_members(ms: &Vec<Member>) -> (r: Vec<RefinedMember>)
    ensures
        view_refined_seq(r@) == spec_refine(view_members(ms@)),
{
    let mut r: Vec<RefinedMember> = Vec::new();
    let n = ms.len();
    let mut i: usize = 0;
    while i < n
        invariant
            n == ms.len(),
            i <= n,
            view_refined_seq(r@) == spec_refine(view_members(ms@.take(i as int))),
        decreases n - i,
    {
        let ghost r0 = r@;
        match &ms[i] {
            Member::Property(p) => {
                r.push(RefinedMember::Property(p.clone()));
            },
            Member::Getter(p) => {
                r.push(RefinedMember::Getter(p.clone()));
            },
            Member::Method(s) => {
                r.push(RefinedMember::Method(s.clone()));
            },
            _ => {},
        }
        proof {
            let pre = ms@.take(i as int);
            let cur = ms@.take(i + 1 as int);
            assert(cur.drop_last() =~= pre);
            assert(cur.last() == ms@[i as int]);
            let mv = view_members(cur);
            assert(view_members(cur.drop_last()) == view_members(pre));
            assert(mv == view_members(pre).push(view_member(ms@[i as int])));
            assert(mv.drop_last() =~= view_members(pre));
            assert(mv.last() == view_member(ms@[i as int]));
            assert(spec_refine(mv).drop_last() == spec_refine(view_members(pre)) || spec_refine(mv)
                == spec_refine(view_members(pre)));
            assert(view_refined_seq(r@) =~= spec_refine(view_members(ms@.take(i + 1 as int))));
        }
        i = i + 1;
    }
    proof {
        assert(ms@.take(n as int) =~= ms@);
    }
    r
}

/// Every member's optional-flag rewritten to `b`.
fn set_optional_vec(ms: &Vec<RefinedMember>, b: bool) -> (r: Vec<RefinedMember>)
    ensures
        view_refined_seq(r@) == set_optional_all(view_refined_seq(ms@), b),
{
    let mut r: Vec<RefinedMember> = Vec::new();
    let n = ms.len();
    let mut i: usize = 0;
    while i < n
        invariant
            n == ms.len(),
            i <= n,
            view_refined_seq(r@) =~= set_optional_all(view_refined_seq(ms@), b).take(i as int),
        decreases n - i,
    {
        let m = match &ms[i] {
            RefinedMember::Property(p) => RefinedMember::Property(
                PropSig {
                    key: p.key.clone(),
                    key_span: p.key_span,
                    optional: b,
                    type_ann: clone_opt_type(&p.type_ann),
                },
            ),
            RefinedMember::Getter(p) => RefinedMember::Getter(
                PropSig {
                    key: p.key.clone(),
                    key_span: p.key_span,
                    optional: b,
                    type_ann: clone_opt_type(&p.type_ann),
                },
            ),
            RefinedMember::Method(s) => RefinedMember::Method(
                crate::ast::MethodSig { key: s.key.clone(), key_span: s.key_span, optional: b },
            ),
        };
        proof {
            assert(view_refined(m) == with_optional(view_refined(ms@[i as int]), b));
        }
        let ghost r0 = r@;
        r.push(m);
        proof {
            let full = set_optional_all(view_refined_seq(ms@), b);
            assert(r@ == r0.push(m));
            assert(full.len() == ms@.len());
            assert(view_refined_seq(r0).len() == r0.len());
            assert(r0.len() == i);
            assert(full[i as int] == with_optional(view_refined(ms@[i as int]), b));
            assert forall|j: int| 0 <= j < i + 1 implies view_refined_seq(r@)[j] == full.take(
                i + 1 as int,
            )[j] by {
                if j < i {
                    assert(view_refined_seq(r0)[j] == full.take(i as int)[j]);
                    assert(r@[j] == r0[j]);
                } else {
                    assert(r@[j] == m);
                }
            }
            assert(view_refined_seq(r@) =~= full.take(i + 1 as int));
        }
        i = i + 1;
    }
    proof {
        assert(set_optional_all(view_refined_seq(ms@), b).take(n as int) =~= set_optional_all(
            view_refined_seq(ms@),
            b,
        ));
    }
    r
}

/// Whether one of the resolved keys spells `s`.
fn contains_str(keys: &Vec<String>, s: &String) -> (r: bool)
    ensures
        r == view_strs(keys@).contains(s@),
{
    let n = keys.len();
    let mut i: usize = 0;
    while i < n
        invariant
            n == keys.len(),
            i <= n,
            forall|j: int| 0 <= j < i ==> view_strs(keys@)[j] != s@,
        decreases n - i,
    {
        if keys[i] == *s {
            proof {
                assert(view_strs(keys@)[i as int] == s@);
            }
            return true;
        }
        i = i + 1;
    }
    false
}

/// Whether a member key textually matches one of the resolved keys.
fn key_in_exec(k: &PropKey, keys: &Vec<String>) -> (r: bool)
    ensures
        r == key_in(view_prop_key(*k), view_strs(keys@)),
{
    match k {
        PropKey::Ident(s) => contains_str(keys, s),
        PropKey::StrKey(s) => contains_str(keys, s),
        _ => false,
    }
}

/// The members whose key-match status equals `keep`, in order.
fn filter_keys_vec(ms: &Vec<RefinedMember>, keys: &Vec<String>, keep: bool) -> (r: Vec<
    RefinedMember,
>)
    ensures
        view_refined_seq(r@) == spec_filter_keys(view_refined_seq(ms@), view_strs(keys@), keep),
{
    let mut r: Vec<RefinedMember> = Vec::new();
    let n = ms.len();
    let mut i: usize = 0;
    while i < n
        invariant
            n == ms.len(),
            i <= n,
            view_refined_seq(r@) == spec_filter_keys(
                view_refined_seq(ms@).take(i as int),
                view_strs(keys@),
                keep,
            ),
        decreases n - i,
    {
        let k = match &ms[i] {
            RefinedMember::Property(p) => &p.key,
            RefinedMember::Getter(p) => &p.key,
            RefinedMember::Method(s) => &s.key,
        };
        proof {
            assert(view_prop_key(*k) == refined_key(view_refined(ms@[i as int])));
        }
        let ghost r0 = r@;
        if key_in_exec(k, keys) == keep {
            let c = ms[i].clone();
            r.push(c);
        }
        proof {
            let full = view_refined_seq(ms@);
            assert(full.take(i + 1 as int).drop_last() =~= full.take(i as int));
            assert(full.take(i + 1 as int).last() == full[i as int]);
            if r@ != r0 {
                assert(r@.drop_last() =~= r0);
            }
            assert(view_refined_seq(r@) =~= spec_filter_keys(
                full.take(i + 1 as int),
                view_strs(keys@),
                keep,
            ));
        }
        i = i + 1;
    }
    proof {
        assert(view_refined_seq(ms@).take(n as int) =~= view_refined_seq(ms@));
    }
    r
}

// ---------------------------------------------------------------------
// Synthesized nodes and index-shape tests.
// ---------------------------------------------------------------------

/// The synthesized reference node that stands for a method's value type.
fn synth_function_node() -> (r: TypeNode)
    ensures
        view_type(r) == synth_fn_ref(),
{
    let r = TypeNode {
        span: 0,
        kind: TypeKind::Ref(
            RefName { sym: "Function".to_owned(), scope: 0, unresolved: false },
            Vec::new(),
        ),
    };
    proof {
        assert(view_types(Seq::<TypeNode>::empty()) =~= Seq::<TypeNodeV>::empty());
    }
    r
}

/// The synthesized reference node under which an interface parent is
/// resolved.
fn synth_parent_node(p: &RefName) -> (r: TypeNode)
    ensures
        view_type(r) == synth_parent_ref(view_refname(*p)),
{
    let r = TypeNode { span: 0, kind: TypeKind::Ref(p.clone(), Vec::new()) };
    proof {
        assert(view_types(Seq::<TypeNode>::empty()) =~= Seq::<TypeNodeV>::empty());
    }
    r
}

fn is_string_kw_exec(t: &TypeNode) -> (r: bool)
    ensures
        r == is_string_kw(view_type(*t)),
{
    match &t.kind {
        TypeKind::Keyword(k) => *k == Keyword::KwString,
        _ => false,
    }
}

fn is_keyed_index_exec(t: &TypeNode) -> (r: bool)
    ensures
        r == is_keyed_index(view_type(*t)),
{
    match &t.kind {
        TypeKind::Lit(Lit::StrLit(_)) => true,
        TypeKind::Union(_) => true,
        TypeKind::Ref(_, _) => true,
        _ => false,
    }
}

fn is_numeric_index_exec(t: &TypeNode) -> (r: bool)
    ensures
        r == is_numeric_index(view_type(*t)),
{
    match &t.kind {
        TypeKind::Keyword(k) => *k == Keyword::KwNumber,
        TypeKind::Lit(Lit::NumLit(_)) => true,
        _ => false,
    }
}

/// Member value types for an access indexed by the `string` keyword.
fn collect_all_types_exec(ms: &Vec<Member>) -> (r: Vec<TypeNode>)
    ensures
        view_types(r@) == collect_all_types(view_members(ms@)),
{
    let mut r: Vec<TypeNode> = Vec::new();
    let n = ms.len();
    let mut i: usize = 0;
    while i < n
        invariant
            n == ms.len(),
            i <= n,
            view_types(r@) == collect_all_types(view_members(ms@.take(i as int))),
        decreases n - i,
    {
        let ghost r0 = r@;
        match &ms[i] {
            Member::Property(p) => {
                if matches!(p.key, PropKey::Ident(_) | PropKey::StrKey(_)) {
                    match &p.type_ann {
                        Some(b) => {
                            let c = clone_type(b);
                            r.push(c);
                        },
                        None => {},
                    }
                }
            },
            Member::Getter(p) => {
                if matches!(p.key, PropKey::Ident(_) | PropKey::StrKey(_)) {
                    match &p.type_ann {
                        Some(b) => {
                            let c = clone_type(b);
                            r.push(c);
                        },
                        None => {},
                    }
                }
            },
            Member::IndexSig(o) => {
                match o {
                    Some(b) => {
                        let c = clone_type(b);
                        r.push(c);
                    },
                    None => {},
                }
            },
            Member::Method(_) => {
                let f = synth_function_node();
                r.push(f);
            },
            _ => {},
        }
        proof {
            let pre = ms@.take(i as int);
            let cur = ms@.take(i + 1 as int);
            assert(cur.drop_last() =~= pre);
            assert(cur.last() == ms@[i as int]);
            let mv = view_members(cur);
            assert(view_members(cur.drop_last()) == view_members(pre));
            assert(mv == view_members(pre).push(view_member(ms@[i as int])));
            assert(mv.drop_last() =~= view_members(pre));
            assert(mv.last() == view_member(ms@[i as int]));
            if r@ != r0 {
                assert(r@.drop_last() =~= r0);
            }
            assert(view_types(r@) =~= collect_all_types(view_members(ms@.take(i + 1 as int))));
        }
        i = i + 1;
    }
    proof {
        assert(ms@.take(n as int) =~= ms@);
    }
    r
}

/// Member value types for an access indexed by a concrete key set.
fn collect_keyed_types_exec(ms: &Vec<Member>, keys: &Vec<String>) -> (r: Vec<TypeNode>)
    ensures
        view_types(r@) == collect_keyed_types(view_members(ms@), view_strs(keys@)),
{
    let mut r: Vec<TypeNode> = Vec::new();
    let n = ms.len();
    let mut i: usize = 0;
    while i < n
        invariant
            n == ms.len(),
            i <= n,
            view_types(r@) == collect_keyed_types(view_members(ms@.take(i as int)), view_strs(
                keys@,
            )),
        decreases n - i,
    {
        let ghost r0 = r@;
        match &ms[i] {
            Member::Property(p) => {
                if key_in_exec(&p.key, keys) {
                    match &p.type_ann {
                        Some(b) => {
                            let c = clone_type(b);
                            r.push(c);
                        },
                        None => {},
                    }
                }
            },
            Member::Getter(p) => {
                if key_in_exec(&p.key, keys) {
                    match &p.type_ann {
                        Some(b) => {
                            let c = clone_type(b);
                            r.push(c);
                        },
                        None => {},
                    }
                }
            },
            Member::Method(s) => {
                if key_in_exec(&s.key, keys) {
                    let f = synth_function_node();
                    r.push(f);
                }
            },
            _ => {},
        }
        proof {
            let pre = ms@.take(i as int);
            let cur = ms@.take(i + 1 as int);
            assert(cur.drop_last() =~= pre);
            assert(cur.last() == ms@[i as int]);
            let mv = view_members(cur);
            assert(view_members(cur.drop_last()) == view_members(pre));
            assert(mv == view_members(pre).push(view_member(ms@[i as int])));
            assert(mv.drop_last() =~= view_members(pre));
            assert(mv.last() == view_member(ms@[i as int]));
            if r@ != r0 {
                assert(r@.drop_last() =~= r0);
            }
            assert(view_types(r@) =~= collect_keyed_types(
                view_members(ms@.take(i + 1 as int)),
                view_strs(keys@),
            ));
        }
        i = i + 1;
    }
    proof {
        assert(ms@.take(n as int) =~= ms@);
    }
    r
}

/// Collapse a gathered type list: a single match is that type itself,
/// anything else forms a union node.
fn collapse_exec(tys: Vec<TypeNode>) -> (r: TypeNode)
    ensures
        view_type(r) == collapse_types(view_types(tys@)),
{
    proof {
        lemma_view_types_len(tys@);
    }
    if tys.len() == 1 {
        let mut v = tys;
        let ghost full = v@;
        let t = v.pop().unwrap();
        proof {
            assert(t == full[0]);
            lemma_view_types_index(full, 0);
        }
        t
    } else {
        TypeNode { span: 0, kind: TypeKind::Union(tys) }
    }
}

// ---------------------------------------------------------------------
// Key-set resolution.
// ---------------------------------------------------------------------

/// The string keys a node denotes, for `Pick`/`Omit` and keyed indexed
/// access: a string literal, a union of string literals (other branches
/// silently ignored), or an alias to one; anything else reports an error
/// and yields no keys.
pub fn resolve_index_keys(
    idx: &DeclIndex,
    t: &TypeNode,
    fuel: u64,
    diags: &mut Vec<Diagnostic>,
) -> (r: Vec<String>)
    ensures
        ({
            let (ks, ds) = spec_resolve_keys(view_index(*idx), view_type(*t), fuel as nat);
            view_strs(r@) == ks && final(diags)@ == old(diags)@ + ds
        }),
    decreases fuel,
{
    let ghost iv = view_index(*idx);
    let ghost tv = view_type(*t);
    if fuel == 0 {
        let d = Diagnostic { span: t.span, kind: DiagKind::CircularRef };
        diags.push(d);
        proof {
            assert(diags@ =~= old(diags)@ + seq![d]);
            assert(view_strs(Seq::<String>::empty()) =~= Seq::<Seq<char>>::empty());
        }
        return Vec::new();
    }
    match &t.kind {
        TypeKind::Lit(Lit::StrLit(s)) => {
            let mut r: Vec<String> = Vec::new();
            r.push(s.clone());
            proof {
                assert(view_strs(r@) =~= seq![s@]);
                assert(diags@ =~= old(diags)@ + Seq::<Diagnostic>::empty());
            }
            r
        },
        TypeKind::Union(ts) => {
            let mut r: Vec<String> = Vec::new();
            let n = ts.len();
            let mut i: usize = 0;
            proof {
                lemma_view_types_len(ts@);
            }
            while i < n
                invariant
                    n == ts.len(),
                    i <= n,
                    view_types(ts@).len() == n,
                    view_strs(r@) == collect_str_lits(view_types(ts@).take(i as int)),
                decreases n - i,
            {
                let ghost r0 = r@;
                match &ts[i].kind {
                    TypeKind::Lit(Lit::StrLit(s)) => {
                        let c = s.clone();
                        r.push(c);
                    },
                    _ => {},
                }
                proof {
                    lemma_view_types_index(ts@, i as int);
                    let full = view_types(ts@);
                    assert(full.take(i + 1 as int).drop_last() =~= full.take(i as int));
                    assert(full.take(i + 1 as int).last() == full[i as int]);
                    assert(view_strs(r0).len() == r0.len());
                    if r@ != r0 {
                        assert(r@ == r0.push(r@[r0.len() as int]));
                    }
                    assert(view_strs(r@) =~= collect_str_lits(full.take(i + 1 as int)));
                }
                i = i + 1;
            }
            proof {
                assert(view_types(ts@).take(n as int) =~= view_types(ts@));
                assert(diags@ =~= old(diags)@ + Seq::<Diagnostic>::empty());
            }
            r
        },
        TypeKind::Ref(name, _args) => {
            if let Some(aliased) = lookup_alias(idx, &name.sym, name.scope) {
                let r = resolve_index_keys(idx, aliased, fuel - 1, diags);
                r
            } else if name.unresolved {
                let d = Diagnostic { span: t.span, kind: DiagKind::UnresolvedRef };
                diags.push(d);
                proof {
                    assert(diags@ =~= old(diags)@ + seq![d]);
                    assert(view_strs(Seq::<String>::empty()) =~= Seq::<Seq<char>>::empty());
                }
                Vec::new()
            } else {
                let d = Diagnostic { span: t.span, kind: DiagKind::CrossModule };
                diags.push(d);
                proof {
                    assert(diags@ =~= old(diags)@ + seq![d]);
                    assert(view_strs(Seq::<String>::empty()) =~= Seq::<Seq<char>>::empty());
                }
                Vec::new()
            }
        },
        _ => {
            let d = Diagnostic { span: t.span, kind: DiagKind::UnsupportedIndexKey };
            diags.push(d);
            proof {
                assert(diags@ =~= old(diags)@ + seq![d]);
                assert(view_strs(Seq::<String>::empty()) =~= Seq::<Seq<char>>::empty());
            }
            Vec::new()
        },
    }
}

// ---------------------------------------------------------------------
// Indexed-access resolution.
// ---------------------------------------------------------------------

/// The type (if any) an `Object[Key]` access yields: member lookup on
/// interfaces and inline objects, element access on arrays and the
/// `Array` built-in, positional access on tuples.
pub fn resolve_indexed_access(
    idx: &DeclIndex,
    obj: &TypeNode,
    ix: &TypeNode,
    fuel: u64,
    diags: &mut Vec<Diagnostic>,
) -> (r: Option<TypeNode>)
    ensures
        ({
            let (res, ds) = spec_indexed_access(
                view_index(*idx),
                view_type(*obj),
                view_type(*ix),
                fuel as nat,
            );
            view_opt_node(r) == res && final(diags)@ == old(diags)@ + ds
        }),
    decreases fuel,
{
    let ghost iv = view_index(*idx);
    if fuel == 0 {
        let d = Diagnostic { span: obj.span, kind: DiagKind::CircularRef };
        diags.push(d);
        proof {
            assert(diags@ =~= old(diags)@ + seq![d]);
        }
        return None;
    }
    match &obj.kind {
        TypeKind::Ref(name, args) => {
            if let Some(aliased) = lookup_alias(idx, &name.sym, name.scope) {
                resolve_indexed_access(idx, aliased, ix, fuel - 1, diags)
            } else if let Some(iface) = lookup_interface(idx, &name.sym, name.scope) {
                if is_string_kw_exec(ix) {
                    let tys = collect_all_types_exec(&iface.members);
                    let u = collapse_exec(tys);
                    proof {
                        assert(diags@ =~= old(diags)@ + Seq::<Diagnostic>::empty());
                    }
                    Some(u)
                } else if is_keyed_index_exec(ix) {
                    let keys = resolve_index_keys(idx, ix, fuel - 1, diags);
                    let tys = collect_keyed_types_exec(&iface.members, &keys);
                    Some(collapse_exec(tys))
                } else {
                    let tys: Vec<TypeNode> = Vec::new();
                    let u = collapse_exec(tys);
                    proof {
                        assert(view_types(Seq::<TypeNode>::empty()) =~= Seq::<TypeNodeV>::empty());
                        assert(diags@ =~= old(diags)@ + Seq::<Diagnostic>::empty());
                    }
                    Some(u)
                }
            } else if name.unresolved && is_word(&name.sym, "Array") {
                proof {
                    lemma_view_types_len(args@);
                    assert(diags@ =~= old(diags)@ + Seq::<Diagnostic>::empty());
                }
                if args.len() >= 1 {
                    let c = clone_type(&args[0]);
                    proof {
                        lemma_view_types_index(args@, 0);
                    }
                    Some(c)
                } else {
                    None
                }
            } else {
                proof {
                    assert(diags@ =~= old(diags)@ + Seq::<Diagnostic>::empty());
                }
                None
            }
        },
        TypeKind::Object(ms) => {
            if is_string_kw_exec(ix) {
                let tys = collect_all_types_exec(ms);
                let u = collapse_exec(tys);
                proof {
                    assert(diags@ =~= old(diags)@ + Seq::<Diagnostic>::empty());
                }
                Some(u)
            } else if is_keyed_index_exec(ix) {
                let keys = resolve_index_keys(idx, ix, fuel - 1, diags);
                let tys = collect_keyed_types_exec(ms, &keys);
                Some(collapse_exec(tys))
            } else {
                let tys: Vec<TypeNode> = Vec::new();
                let u = collapse_exec(tys);
                proof {
                    assert(view_types(Seq::<TypeNode>::empty()) =~= Seq::<TypeNodeV>::empty());
                    assert(diags@ =~= old(diags)@ + Seq::<Diagnostic>::empty());
                }
                Some(u)
            }
        },
        TypeKind::Array(elem) => {
            proof {
                assert(diags@ =~= old(diags)@ + Seq::<Diagnostic>::empty());
            }
            if is_numeric_index_exec(ix) {
                Some(clone_type(elem))
            } else {
                None
            }
        },
        TypeKind::Tuple(elems) => {
            proof {
                lemma_view_types_len(elems@);
                assert(diags@ =~= old(diags)@ + Seq::<Diagnostic>::empty());
            }
            match &ix.kind {
                TypeKind::Lit(Lit::NumLit(nv)) => {
                    if *nv < elems.len() as u64 {
                        let pos = *nv as usize;
                        let c = clone_type(&elems[pos]);
                        proof {
                            lemma_view_types_index(elems@, pos as int);
                        }
                        Some(c)
                    } else {
                        None
                    }
                },
                TypeKind::Keyword(k) => {
                    if *k == Keyword::KwNumber {
                        let copy = clone_types(elems);
                        Some(TypeNode { span: 0, kind: TypeKind::Union(copy) })
                    } else {
                        None
                    }
                },
                _ => None,
            }
        },
        _ => {
            proof {
                assert(diags@ =~= old(diags)@ + Seq::<Diagnostic>::empty());
            }
            None
        },
    }
}

// ---------------------------------------------------------------------
// Property flattening.
// ---------------------------------------------------------------------

/// Flatten a type node into the ordered list of refined members it
/// denotes: inline objects emit their members, unions and intersections
/// concatenate their branches, references expand aliases, interfaces
/// (with their parents) and the member-rewriting utility operators
/// (`Partial`, `Required`, `Pick`, `Omit`), and indexed accesses resolve
/// and recurse. Unsuitable shapes report an error and contribute nothing.
pub fn resolve_props(
    idx: &DeclIndex,
    t: &TypeNode,
    fuel: u64,
    diags: &mut Vec<Diagnostic>,
) -> (r: Vec<RefinedMember>)
    ensures
        ({
            let (ms, ds) = spec_resolve_props(view_index(*idx), view_type(*t), fuel as nat);
            view_refined_seq(r@) == ms && final(diags)@ == old(diags)@ + ds
        }),
    decreases fuel,
{
    let ghost iv = view_index(*idx);
    if fuel == 0 {
        let d = Diagnostic { span: t.span, kind: DiagKind::CircularRef };
        diags.push(d);
        proof {
            assert(diags@ =~= old(diags)@ + seq![d]);
            assert(view_refined_seq(Seq::<RefinedMember>::empty()) =~= Seq::<
                crate::model::RefinedMemberV,
            >::empty());
        }
        return Vec::new();
    }
    let ghost fullspec = spec_resolve_props(iv, view_type(*t), fuel as nat);
    match &t.kind {
        TypeKind::Object(ms) => {
            let r = refine_members(ms);
            proof {
                assert(diags@ =~= old(diags)@ + Seq::<Diagnostic>::empty());
                assert(view_refined_seq(r@) == fullspec.0);
                assert(diags@ == old(diags)@ + fullspec.1);
            }
            r
        },
        TypeKind::Union(ts) | TypeKind::Intersection(ts) => {
            let ghost f1 = (fuel - 1) as nat;
            let ghost tsv = view_types(ts@);
            let mut out: Vec<RefinedMember> = Vec::new();
            let n = ts.len();
            let mut i: usize = 0;
            proof {
                lemma_view_types_len(ts@);
            }
            while i < n
                invariant
                    n == ts.len(),
                    i <= n,
                    fuel >= 1,
                    f1 == (fuel - 1) as nat,
                    iv == view_index(*idx),
                    tsv == view_types(ts@),
                    tsv.len() == n,
                    view_refined_seq(out@) == spec_resolve_props_list(iv, tsv.take(i as int), f1).0,
                    diags@ == old(diags)@ + spec_resolve_props_list(iv, tsv.take(i as int), f1).1,
                decreases n - i,
            {
                let ghost out0 = out@;
                let mut sub = resolve_props(idx, &ts[i], fuel - 1, diags);
                let ghost subv = sub@;
                out.append(&mut sub);
                proof {
                    lemma_view_types_index(ts@, i as int);
                    assert(tsv.take(i + 1 as int).drop_last() =~= tsv.take(i as int));
                    assert(tsv.take(i + 1 as int).last() == tsv[i as int]);
                    assert(view_refined_seq(out0).len() == out0.len());
                    assert(view_refined_seq(subv).len() == subv.len());
                    assert(view_refined_seq(out@) =~= view_refined_seq(out0) + view_refined_seq(
                        subv,
                    ));
                    let step = spec_resolve_props(iv, tsv[i as int], f1);
                    assert(diags@ =~= old(diags)@ + spec_resolve_props_list(
                        iv,
                        tsv.take(i + 1 as int),
                        f1,
                    ).1);
                    assert(view_refined_seq(out@) =~= spec_resolve_props_list(
                        iv,
                        tsv.take(i + 1 as int),
                        f1,
                    ).0);
                }
                i = i + 1;
            }
            proof {
                assert(tsv.take(n as int) =~= tsv);
                assert(view_refined_seq(out@) == fullspec.0);
                assert(diags@ == old(diags)@ + fullspec.1);
            }
            out
        },
        TypeKind::Ref(name, args) => {
            if let Some(aliased) = lookup_alias(idx, &name.sym, name.scope) {
                let r = resolve_props(idx, aliased, fuel - 1, diags);
                proof {
                    let tv = view_type(*t);
                    assert(fuel as nat != 0);
                    assert(tv.kind == crate::model::TypeKindV::Ref(
                        view_refname(*name),
                        view_types(args@),
                    ));
                    assert(iv.lookup_alias(view_refname(*name).sym, view_refname(*name).scope)
                        is Some);
                    let rr = crate::semantics::spec_resolve_ref(
                        iv,
                        tv.span,
                        view_refname(*name),
                        view_types(args@),
                        fuel as nat,
                    );
                    assert(fullspec == rr);
                    assert(rr == spec_resolve_props(iv, view_type(*aliased), (fuel - 1) as nat));
                    assert(view_refined_seq(r@) == fullspec.0);
                    assert(diags@ == old(diags)@ + fullspec.1);
                }
                r
            } else if let Some(iface) = lookup_interface(idx, &name.sym, name.scope) {
                let ghost f1 = (fuel - 1) as nat;
                let ghost ifv = view_interface(*iface);
                let ghost pv = crate::semantics::synth_parents(ifv.extends);
                let mut out = refine_members(&iface.members);
                let n = iface.extends.len();
                let mut i: usize = 0;
                proof {
                    assert(pv.len() == n);
                }
                while i < n
                    invariant
                        n == iface.extends.len(),
                        i <= n,
                        fuel >= 1,
                        f1 == (fuel - 1) as nat,
                        iv == view_index(*idx),
                        ifv == view_interface(*iface),
                        pv == crate::semantics::synth_parents(ifv.extends),
                        pv.len() == n,
                        view_refined_seq(out@) == spec_refine(ifv.members)
                            + spec_resolve_props_list(iv, pv.take(i as int), f1).0,
                        diags@ == old(diags)@ + spec_resolve_props_list(iv, pv.take(i as int), f1).1,
                    decreases n - i,
                {
                    let ghost out0 = out@;
                    let pnode = synth_parent_node(&iface.extends[i]);
                    let mut sub = resolve_props(idx, &pnode, fuel - 1, diags);
                    let ghost subv = sub@;
                    out.append(&mut sub);
                    proof {
                        assert(pv[i as int] == crate::semantics::synth_parent_ref(
                            ifv.extends[i as int],
                        ));
                        assert(ifv.extends[i as int] == view_refname(iface.extends@[i as int]));
                        assert(pv.take(i + 1 as int).drop_last() =~= pv.take(i as int));
                        assert(pv.take(i + 1 as int).last() == pv[i as int]);
                        assert(view_refined_seq(out0).len() == out0.len());
                        assert(view_refined_seq(subv).len() == subv.len());
                        assert(view_refined_seq(out@) =~= view_refined_seq(out0)
                            + view_refined_seq(subv));
                        assert(diags@ =~= old(diags)@ + spec_resolve_props_list(
                            iv,
                            pv.take(i + 1 as int),
                            f1,
                        ).1);
                        assert(view_refined_seq(out@) =~= spec_refine(ifv.members)
                            + spec_resolve_props_list(iv, pv.take(i + 1 as int), f1).0);
                    }
                    i = i + 1;
                }
                proof {
                    assert(pv.take(n as int) =~= pv);
                    let tv = view_type(*t);
                    assert(tv.kind == crate::model::TypeKindV::Ref(
                        view_refname(*name),
                        view_types(args@),
                    ));
                    assert(iv.lookup_interface(
                        view_refname(*name).sym,
                        view_refname(*name).scope,
                    ) == Some(ifv));
                    let rr = crate::semantics::spec_resolve_ref(
                        iv,
                        tv.span,
                        view_refname(*name),
                        view_types(args@),
                        fuel as nat,
                    );
                    assert(fullspec == rr);
                    assert(rr.0 == spec_refine(ifv.members) + spec_resolve_props_list(
                        iv,
                        crate::semantics::synth_parents(ifv.extends),
                        (fuel - 1) as nat,
                    ).0);
                    assert(view_refined_seq(out@) == fullspec.0);
                    assert(diags@ == old(diags)@ + fullspec.1);
                }
                out
            } else if name.unresolved {
                proof {
                    lemma_view_types_len(args@);
                    let tv = view_type(*t);
                    assert(tv.kind == crate::model::TypeKindV::Ref(
                        view_refname(*name),
                        view_types(args@),
                    ));
                    let rr = crate::semantics::spec_resolve_ref(
                        iv,
                        tv.span,
                        view_refname(*name),
                        view_types(args@),
                        fuel as nat,
                    );
                    assert(fullspec == rr);
                }
                if is_word(&name.sym, "Partial") {
                    if args.len() >= 1 {
                        proof {
                            lemma_view_types_index(args@, 0);
                        }
                        let inner = resolve_props(idx, &args[0], fuel - 1, diags);
                        let r = set_optional_vec(&inner, true);
                        proof {
                            let tv = view_type(*t);
                            assert(tv.kind == crate::model::TypeKindV::Ref(
                                view_refname(*name),
                                view_types(args@),
                            ));
                            let rr = crate::semantics::spec_resolve_ref(
                                iv,
                                tv.span,
                                view_refname(*name),
                                view_types(args@),
                                fuel as nat,
                            );
                            assert(fullspec == rr);
                            assert(view_refined_seq(r@) == fullspec.0);
                            assert(diags@ == old(diags)@ + fullspec.1);
                        }
                        r
                    } else {
                        proof {
                            assert(diags@ =~= old(diags)@ + Seq::<Diagnostic>::empty());
                            assert(view_refined_seq(Seq::<RefinedMember>::empty()) =~= Seq::<
                                crate::model::RefinedMemberV,
                            >::empty());
                        }
                        Vec::new()
                    }
                } else if is_word(&name.sym, "Required") {
                    if args.len() >= 1 {
                        proof {
                            lemma_view_types_index(args@, 0);
                        }
                        let inner = resolve_props(idx, &args[0], fuel - 1, diags);
                        let r = set_optional_vec(&inner, false);
                        proof {
                            let tv = view_type(*t);
                            assert(tv.kind == crate::model::TypeKindV::Ref(
                                view_refname(*name),
                                view_types(args@),
                            ));
                            let rr = crate::semantics::spec_resolve_ref(
                                iv,
                                tv.span,
                                view_refname(*name),
                                view_types(args@),
                                fuel as nat,
                            );
                            assert(fullspec == rr);
                            assert(view_refined_seq(r@) == fullspec.0);
                            assert(diags@ == old(diags)@ + fullspec.1);
                        }
                        r
                    } else {
                        proof {
                            assert(diags@ =~= old(diags)@ + Seq::<Diagnostic>::empty());
                            assert(view_refined_seq(Seq::<RefinedMember>::empty()) =~= Seq::<
                                crate::model::RefinedMemberV,
                            >::empty());
                        }
                        Vec::new()
                    }
                } else if is_word(&name.sym, "Pick") {
                    if args.len() >= 2 {
                        proof {
                            lemma_view_types_index(args@, 0);
                            lemma_view_types_index(args@, 1);
                        }
                                let keys = resolve_index_keys(idx, &args[1], fuel - 1, diags);
                        let inner = resolve_props(idx, &args[0], fuel - 1, diags);
                        let r = filter_keys_vec(&inner, &keys, true);
                        proof {
                            let tv = view_type(*t);
                            assert(tv.kind == crate::model::TypeKindV::Ref(
                                view_refname(*name),
                                view_types(args@),
                            ));
                            let rr = crate::semantics::spec_resolve_ref(
                                iv,
                                tv.span,
                                view_refname(*name),
                                view_types(args@),
                                fuel as nat,
                            );
                            assert(fullspec == rr);
                            assert(diags@ =~= old(diags)@ + (spec_resolve_keys(
                                iv,
                                view_types(args@)[1],
                                (fuel - 1) as nat,
                            ).1 + spec_resolve_props(
                                iv,
                                view_types(args@)[0],
                                (fuel - 1) as nat,
                            ).1));
                            assert(view_refined_seq(r@) == fullspec.0);
                            assert(diags@ == old(diags)@ + fullspec.1);
                        }
                        r
                    } else {
                        proof {
                            assert(diags@ =~= old(diags)@ + Seq::<Diagnostic>::empty());
                            assert(view_refined_seq(Seq::<RefinedMember>::empty()) =~= Seq::<
                                crate::model::RefinedMemberV,
                            >::empty());
                            assert(diags@ == old(diags)@ + fullspec.1);
                        }
                        Vec::new()
                    }
                } else if is_word(&name.sym, "Omit") {
                    if args.len() >= 2 {
                        proof {
                            lemma_view_types_index(args@, 0);
                            lemma_view_types_index(args@, 1);
                        }
                        let keys = resolve_index_keys(idx, &args[1], fuel - 1, diags);
                        let inner = resolve_props(idx, &args[0], fuel - 1, diags);
                        let r = filter_keys_vec(&inner, &keys, false);
                        proof {
                            let tv = view_type(*t);
                            assert(tv.kind == crate::model::TypeKindV::Ref(
                                view_refname(*name),
                                view_types(args@),
                            ));
                            let rr = crate::semantics::spec_resolve_ref(
                                iv,
                                tv.span,
                                view_refname(*name),
                                view_types(args@),
                                fuel as nat,
                            );
                            assert(fullspec == rr);
                            assert(diags@ =~= old(diags)@ + (spec_resolve_keys(
                                iv,
                                view_types(args@)[1],
                                (fuel - 1) as nat,
                            ).1 + spec_resolve_props(
                                iv,
                                view_types(args@)[0],
                                (fuel - 1) as nat,
                            ).1));
                        }
                        r
                    } else {
                        proof {
                            assert(diags@ =~= old(diags)@ + Seq::<Diagnostic>::empty());
                            assert(view_refined_seq(Seq::<RefinedMember>::empty()) =~= Seq::<
                                crate::model::RefinedMemberV,
                            >::empty());
                        }
                        Vec::new()
                    }
                } else {
                    let d = Diagnostic { span: t.span, kind: DiagKind::UnresolvedRef };
                    diags.push(d);
                    proof {
                        assert(diags@ =~= old(diags)@ + seq![d]);
                        assert(view_refined_seq(Seq::<RefinedMember>::empty()) =~= Seq::<
                            crate::model::RefinedMemberV,
                        >::empty());
                    }
                    Vec::new()
                }
            } else {
                let d = Diagnostic { span: t.span, kind: DiagKind::CrossModule };
                diags.push(d);
                proof {
                    let tv = view_type(*t);
                    assert(tv.kind == crate::model::TypeKindV::Ref(
                        view_refname(*name),
                        view_types(args@),
                    ));
                    let rr = crate::semantics::spec_resolve_ref(
                        iv,
                        tv.span,
                        view_refname(*name),
                        view_types(args@),
                        fuel as nat,
                    );
                    assert(fullspec == rr);
                    assert(diags@ =~= old(diags)@ + seq![d]);
                    assert(view_refined_seq(Seq::<RefinedMember>::empty()) =~= Seq::<
                        crate::model::RefinedMemberV,
                    >::empty());
                }
                Vec::new()
            }
        },
        TypeKind::IndexedAccess(o, ixn) => {
            let res = resolve_indexed_access(idx, o, ixn, fuel - 1, diags);
            match res {
                Some(ty) => {
                    let r = resolve_props(idx, &ty, fuel - 1, diags);
                    proof {
                        assert(diags@ =~= old(diags)@ + (spec_indexed_access(
                            iv,
                            view_type(**o),
                            view_type(**ixn),
                            (fuel - 1) as nat,
                        ).1 + spec_resolve_props(iv, view_type(ty), (fuel - 1) as nat).1));
                    }
                    r
                },
                None => {
                    let d = Diagnostic { span: t.span, kind: DiagKind::UnresolvableType };
                    diags.push(d);
                    proof {
                        assert(diags@ =~= old(diags)@ + (spec_indexed_access(
                            iv,
                            view_type(**o),
                            view_type(**ixn),
                            (fuel - 1) as nat,
                        ).1 + seq![d]));
                        assert(view_refined_seq(Seq::<RefinedMember>::empty()) =~= Seq::<
                            crate::model::RefinedMemberV,
                        >::empty());
                    }
                    Vec::new()
                },
            }
        },
        TypeKind::Paren(b) => {
            let r = resolve_props(idx, b, fuel - 1, diags);
            proof {
                assert(view_refined_seq(r@) == fullspec.0);
                assert(diags@ == old(diags)@ + fullspec.1);
            }
            r
        },
        TypeKind::Optional(b) => {
            let r = resolve_props(idx, b, fuel - 1, diags);
            proof {
                assert(view_refined_seq(r@) == fullspec.0);
                assert(diags@ == old(diags)@ + fullspec.1);
            }
            r
        },
        _ => {
            let d = Diagnostic { span: t.span, kind: DiagKind::UnresolvableType };
            diags.push(d);
            proof {
                assert(diags@ =~= old(diags)@ + seq![d]);
                assert(view_refined_seq(Seq::<RefinedMember>::empty()) =~= Seq::<
                    crate::model::RefinedMemberV,
                >::empty());
            }
            Vec::new()
        },
    }
}

// ---------------------------------------------------------------------
// Runtime-category inference.
// ---------------------------------------------------------------------

/// A fresh category set holding one tag value.
fn singleton_tag(t: Option<Tag>) -> (r: TagSet)
    ensures
        r.inv(),
        r.tags() == seq![t],
{
    let mut s = TagSet::new();
    s.insert(t);
    proof {
        assert(!Seq::<Option<Tag>>::empty().contains(t));
        assert(Seq::<Option<Tag>>::empty().push(t) =~= seq![t]);
    }
    s
}

fn kw_tag_exec(k: &Keyword) -> (r: Option<Tag>)
    ensures
        r == kw_tag(*k),
{
    match k {
        Keyword::KwString => Some(Tag::TString),
        Keyword::KwNumber => Some(Tag::TNumber),
        Keyword::KwBoolean => Some(Tag::TBoolean),
        Keyword::KwObject => Some(Tag::TObject),
        Keyword::KwNull => None,
        Keyword::KwBigInt => Some(Tag::TBigInt),
        Keyword::KwSymbol => Some(Tag::TSymbol),
        Keyword::KwOther => None,
    }
}

fn lit_tag_exec(l: &Lit) -> (r: Option<Tag>)
    ensures
        r == lit_tag(crate::ast::view_lit(*l)),
{
    match l {
        Lit::StrLit(_) => Some(Tag::TString),
        Lit::TplLit => Some(Tag::TString),
        Lit::BoolLit(_) => Some(Tag::TBoolean),
        Lit::NumLit(_) => Some(Tag::TNumber),
        Lit::BigIntLit(_) => Some(Tag::TNumber),
    }
}

fn member_obj_tag_exec(m: &Member) -> (r: Option<Tag>)
    ensures
        r == member_obj_tag(view_member(*m)),
{
    match m {
        Member::CallSig => Some(Tag::TFunction),
        Member::CtorSig => Some(Tag::TFunction),
        _ => Some(Tag::TObject),
    }
}

/// The tag set of an object-like type: each member's contribution,
/// inserted in declaration order.
fn obj_tags_exec(ms: &Vec<Member>) -> (r: TagSet)
    ensures
        r.inv(),
        r.tags() == obj_member_tags(view_members(ms@)),
{
    let mut out = TagSet::new();
    let n = ms.len();
    let mut i: usize = 0;
    while i < n
        invariant
            n == ms.len(),
            i <= n,
            out.inv(),
            out.tags() == obj_member_tags(view_members(ms@.take(i as int))),
        decreases n - i,
    {
        let tg = member_obj_tag_exec(&ms[i]);
        out.insert(tg);
        proof {
            let pre = ms@.take(i as int);
            let cur = ms@.take(i + 1 as int);
            assert(cur.drop_last() =~= pre);
            assert(cur.last() == ms@[i as int]);
            let mv = view_members(cur);
            assert(view_members(cur.drop_last()) == view_members(pre));
            assert(mv == view_members(pre).push(view_member(ms@[i as int])));
            assert(mv.drop_last() =~= view_members(pre));
            assert(mv.last() == view_member(ms@[i as int]));
        }
        i = i + 1;
    }
    proof {
        assert(ms@.take(n as int) =~= ms@);
    }
    out
}

/// The ordered set of abstract runtime categories a type node can
/// produce: keywords and literals map to their primitive category,
/// object-like shapes to object/function, arrays and tuples to the array
/// category, references through aliases, interfaces and the recognized
/// built-in names, unions and intersections to the union of their
/// branches' categories.
pub fn infer_runtime_type(
    idx: &DeclIndex,
    t: &TypeNode,
    fuel: u64,
    diags: &mut Vec<Diagnostic>,
) -> (r: TagSet)
    ensures
        ({
            let (ts, ds) = spec_infer_tags(view_index(*idx), view_type(*t), fuel as nat);
            r.inv() && r.tags() == ts && final(diags)@ == old(diags)@ + ds
        }),
    decreases fuel,
{
    let ghost iv = view_index(*idx);
    if fuel == 0 {
        let d = Diagnostic { span: t.span, kind: DiagKind::CircularRef };
        diags.push(d);
        proof {
            assert(diags@ =~= old(diags)@ + seq![d]);
        }
        return TagSet::new();
    }
    let ghost fullspec = spec_infer_tags(iv, view_type(*t), fuel as nat);
    match &t.kind {
        TypeKind::Keyword(k) => {
            let r = singleton_tag(kw_tag_exec(k));
            proof {
                assert(diags@ =~= old(diags)@ + Seq::<Diagnostic>::empty());
            }
            r
        },
        TypeKind::Lit(l) => {
            let r = singleton_tag(lit_tag_exec(l));
            proof {
                assert(diags@ =~= old(diags)@ + Seq::<Diagnostic>::empty());
            }
            r
        },
        TypeKind::Object(ms) => {
            let r = obj_tags_exec(ms);
            proof {
                assert(diags@ =~= old(diags)@ + Seq::<Diagnostic>::empty());
            }
            r
        },
        TypeKind::FnOrCtor => {
            let r = singleton_tag(Some(Tag::TFunction));
            proof {
                assert(diags@ =~= old(diags)@ + Seq::<Diagnostic>::empty());
            }
            r
        },
        TypeKind::Array(_) => {
            let r = singleton_tag(Some(Tag::TArray));
            proof {
                assert(diags@ =~= old(diags)@ + Seq::<Diagnostic>::empty());
            }
            r
        },
        TypeKind::Tuple(_) => {
            let r = singleton_tag(Some(Tag::TArray));
            proof {
                assert(diags@ =~= old(diags)@ + Seq::<Diagnostic>::empty());
            }
            r
        },
        TypeKind::Other => {
            let r = singleton_tag(Some(Tag::TObject));
            proof {
                assert(diags@ =~= old(diags)@ + Seq::<Diagnostic>::empty());
            }
            r
        },
        TypeKind::Paren(b) => {
            let r = infer_runtime_type(idx, b, fuel - 1, diags);
            proof {
                assert(r.tags() == fullspec.0);
            }
            r
        },
        TypeKind::Optional(b) => {
            let r = infer_runtime_type(idx, b, fuel - 1, diags);
            proof {
                assert(r.tags() == fullspec.0);
            }
            r
        },
        TypeKind::Union(ts) | TypeKind::Intersection(ts) => {
            let ghost f1 = (fuel - 1) as nat;
            let ghost tsv = view_types(ts@);
            let mut acc = TagSet::new();
            let n = ts.len();
            let mut i: usize = 0;
            proof {
                lemma_view_types_len(ts@);
            }
            while i < n
                invariant
                    n == ts.len(),
                    i <= n,
                    fuel >= 1,
                    f1 == (fuel - 1) as nat,
                    iv == view_index(*idx),
                    tsv == view_types(ts@),
                    tsv.len() == n,
                    acc.inv(),
                    acc.tags() == spec_infer_list(iv, tsv.take(i as int), f1).0,
                    diags@ == old(diags)@ + spec_infer_list(iv, tsv.take(i as int), f1).1,
                decreases n - i,
            {
                let bt = infer_runtime_type(idx, &ts[i], fuel - 1, diags);
                acc.extend_from(&bt);
                proof {
                    lemma_view_types_index(ts@, i as int);
                    assert(tsv.take(i + 1 as int).drop_last() =~= tsv.take(i as int));
                    assert(tsv.take(i + 1 as int).last() == tsv[i as int]);
                    assert(diags@ =~= old(diags)@ + spec_infer_list(
                        iv,
                        tsv.take(i + 1 as int),
                        f1,
                    ).1);
                    assert(acc.tags() == spec_infer_list(iv, tsv.take(i + 1 as int), f1).0);
                }
                i = i + 1;
            }
            proof {
                assert(tsv.take(n as int) =~= tsv);
                assert(acc.tags() == fullspec.0);
            }
            acc
        },
        TypeKind::IndexedAccess(o, ixn) => {
            let res = resolve_indexed_access(idx, o, ixn, fuel - 1, diags);
            match res {
                Some(ty) => {
                    let r = infer_runtime_type(idx, &ty, fuel - 1, diags);
                    proof {
                        assert(diags@ =~= old(diags)@ + (spec_indexed_access(
                            iv,
                            view_type(**o),
                            view_type(**ixn),
                            (fuel - 1) as nat,
                        ).1 + spec_infer_tags(iv, view_type(ty), (fuel - 1) as nat).1));
                        assert(r.tags() == fullspec.0);
                    }
                    r
                },
                None => {
                    let r = TagSet::new();
                    proof {
                        assert(r.tags() == fullspec.0);
                    }
                    r
                },
            }
        },
        TypeKind::Ref(name, args) => {
            let ghost rr = crate::semantics::spec_infer_ref(
                iv,
                view_refname(*name),
                view_types(args@),
                fuel as nat,
            );
            proof {
                lemma_view_types_len(args@);
                assert(view_type(*t).kind == crate::model::TypeKindV::Ref(
                    view_refname(*name),
                    view_types(args@),
                ));
                assert(fullspec == rr);
            }
            if let Some(aliased) = lookup_alias(idx, &name.sym, name.scope) {
                let r = infer_runtime_type(idx, aliased, fuel - 1, diags);
                proof {
                    assert(r.tags() == fullspec.0);
                }
                r
            } else if let Some(iface) = lookup_interface(idx, &name.sym, name.scope) {
                let r = obj_tags_exec(&iface.members);
                proof {
                    assert(diags@ =~= old(diags)@ + Seq::<Diagnostic>::empty());
                    assert(r.tags() == fullspec.0);
                }
                r
            } else if is_word(&name.sym, "Array") {
                let r = singleton_tag(Some(Tag::TArray));
                proof {
                    assert(diags@ =~= old(diags)@ + Seq::<Diagnostic>::empty());
                }
                r
            } else if is_word(&name.sym, "Function") {
                let r = singleton_tag(Some(Tag::TFunction));
                proof {
                    assert(diags@ =~= old(diags)@ + Seq::<Diagnostic>::empty());
                }
                r
            } else if is_word(&name.sym, "Object") {
                let r = singleton_tag(Some(Tag::TObject));
                proof {
                    assert(diags@ =~= old(diags)@ + Seq::<Diagnostic>::empty());
                }
                r
            } else if is_word(&name.sym, "Set") {
                let r = singleton_tag(Some(Tag::TSet));
                proof {
                    assert(diags@ =~= old(diags)@ + Seq::<Diagnostic>::empty());
                }
                r
            } else if is_word(&name.sym, "Map") {
                let r = singleton_tag(Some(Tag::TMap));
                proof {
                    assert(diags@ =~= old(diags)@ + Seq::<Diagnostic>::empty());
                }
                r
            } else if is_word(&name.sym, "WeakSet") {
                let r = singleton_tag(Some(Tag::TWeakSet));
                proof {
                    assert(diags@ =~= old(diags)@ + Seq::<Diagnostic>::empty());
                }
                r
            } else if is_word(&name.sym, "WeakMap") {
                let r = singleton_tag(Some(Tag::TWeakMap));
                proof {
                    assert(diags@ =~= old(diags)@ + Seq::<Diagnostic>::empty());
                }
                r
            } else if is_word(&name.sym, "Date") {
                let r = singleton_tag(Some(Tag::TDate));
                proof {
                    assert(diags@ =~= old(diags)@ + Seq::<Diagnostic>::empty());
                }
                r
            } else if is_word(&name.sym, "Promise") {
                let r = singleton_tag(Some(Tag::TPromise));
                proof {
                    assert(diags@ =~= old(diags)@ + Seq::<Diagnostic>::empty());
                }
                r
            } else if is_word(&name.sym, "Error") {
                let r = singleton_tag(Some(Tag::TError));
                proof {
                    assert(diags@ =~= old(diags)@ + Seq::<Diagnostic>::empty());
                }
                r
            } else if is_word(&name.sym, "RegExp") {
                let r = singleton_tag(Some(Tag::TRegExp));
                proof {
                    assert(diags@ =~= old(diags)@ + Seq::<Diagnostic>::empty());
                }
                r
            } else if is_word(&name.sym, "Partial") || is_word(&name.sym, "Required") || is_word(
                &name.sym,
                "Readonly",
            ) || is_word(&name.sym, "Record") || is_word(&name.sym, "Pick") || is_word(
                &name.sym,
                "Omit",
            ) || is_word(&name.sym, "InstanceType") {
                let r = singleton_tag(Some(Tag::TObject));
                proof {
                    assert(diags@ =~= old(diags)@ + Seq::<Diagnostic>::empty());
                }
                r
            } else if is_word(&name.sym, "Uppercase") || is_word(&name.sym, "Lowercase")
                || is_word(&name.sym, "Capitalize") || is_word(&name.sym, "Uncapitalize") {
                let r = singleton_tag(Some(Tag::TString));
                proof {
                    assert(diags@ =~= old(diags)@ + Seq::<Diagnostic>::empty());
                }
                r
            } else if is_word(&name.sym, "Parameters") || is_word(
                &name.sym,
                "ConstructorParameters",
            ) {
                let r = singleton_tag(Some(Tag::TArray));
                proof {
                    assert(diags@ =~= old(diags)@ + Seq::<Diagnostic>::empty());
                }
                r
            } else if is_word(&name.sym, "NonNullable") {
                if args.len() >= 1 {
                    proof {
                        lemma_view_types_index(args@, 0);
                    }
                    let inner = infer_runtime_type(idx, &args[0], fuel - 1, diags);
                    let src = inner.to_tags();
                    let mut out = TagSet::new();
                    let n = src.len();
                    let mut i: usize = 0;
                    while i < n
                        invariant
                            n == src.len(),
                            i <= n,
                            src@ == inner.tags(),
                            out.inv(),
                            out.tags() == crate::tagset::tag_extend(
                                Seq::empty(),
                                crate::semantics::drop_absent(src@.take(i as int)),
                            ),
                        decreases n - i,
                    {
                        let ghost pre = crate::semantics::drop_absent(src@.take(i as int));
                        if src[i].is_some() {
                            out.insert(src[i]);
                        }
                        proof {
                            assert(src@.take(i + 1 as int).drop_last() =~= src@.take(i as int));
                            assert(src@.take(i + 1 as int).last() == src@[i as int]);
                            if src@[i as int] is Some {
                                let ext = pre.push(src@[i as int]);
                                assert(crate::semantics::drop_absent(src@.take(i + 1 as int))
                                    == ext);
                                assert(ext.drop_last() =~= pre);
                                assert(ext.last() == src@[i as int]);
                            }
                        }
                        i = i + 1;
                    }
                    proof {
                        assert(src@.take(n as int) =~= src@);
                        inner.lemma_tags_no_duplicates();
                        crate::semantics::lemma_drop_absent_no_duplicates(inner.tags());
                        crate::tagset::lemma_extend_empty_no_duplicates(
                            crate::semantics::drop_absent(inner.tags()),
                        );
                        assert(out.tags() == crate::semantics::drop_absent(inner.tags()));
                    }
                    if out.set_len() == 0 {
                        let r = singleton_tag(Some(Tag::TObject));
                        proof {
                            assert(r.tags() == fullspec.0);
                        }
                        r
                    } else {
                        proof {
                            assert(out.tags() == fullspec.0);
                        }
                        out
                    }
                } else {
                    let r = singleton_tag(Some(Tag::TObject));
                    proof {
                        assert(diags@ =~= old(diags)@ + Seq::<Diagnostic>::empty());
                    }
                    r
                }
            } else if is_word(&name.sym, "Exclude") || is_word(&name.sym, "OmitThisParameter") {
                if args.len() >= 1 {
                    proof {
                        lemma_view_types_index(args@, 0);
                    }
                    let r = infer_runtime_type(idx, &args[0], fuel - 1, diags);
                    proof {
                        assert(r.tags() == fullspec.0);
                    }
                    r
                } else {
                    let r = singleton_tag(Some(Tag::TObject));
                    proof {
                        assert(diags@ =~= old(diags)@ + Seq::<Diagnostic>::empty());
                    }
                    r
                }
            } else if is_word(&name.sym, "Extract") {
                if args.len() >= 2 {
                    proof {
                        lemma_view_types_index(args@, 1);
                    }
                    let r = infer_runtime_type(idx, &args[1], fuel - 1, diags);
                    proof {
                        assert(r.tags() == fullspec.0);
                    }
                    r
                } else {
                    let r = singleton_tag(Some(Tag::TObject));
                    proof {
                        assert(diags@ =~= old(diags)@ + Seq::<Diagnostic>::empty());
                    }
                    r
                }
            } else {
                let r = singleton_tag(Some(Tag::TObject));
                proof {
                    assert(diags@ =~= old(diags)@ + Seq::<Diagnostic>::empty());
                    assert(r.tags() == fullspec.0);
                }
                r
            }
        },
    }
}

} // verus!
