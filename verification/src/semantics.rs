//! The meaning of resolution, as specification functions.
//!
//! These functions define, over the model types, what the executable
//! resolvers compute: the flattened member list, the key set, the
//! indexed-access result, the runtime-category tag set, and the merged
//! property table, each paired with the sequence of diagnostics the
//! computation reports, in report order.
//!
//! Recursion through the declaration index is bounded by a fuel value:
//! when it runs out — which on well-founded inputs it never does if the
//! fuel exceeds the nesting depth — the construct resolves to an empty
//! value and a circular-reference diagnostic is reported.

use vstd::prelude::*;

use crate::ast::DiagKind;
use crate::ast::Diagnostic;
use crate::ast::Keyword;
use crate::ast::Tag;
use crate::model::DeclIndexV;
use crate::model::LitV;
use crate::model::MemberV;
use crate::model::PropDescriptorV;
use crate::model::PropKeyV;
use crate::model::PropNameV;
use crate::model::RefNameV;
use crate::model::RefinedMemberV;
use crate::model::TypeKindV;
use crate::model::TypeNodeV;
use crate::tagset::tag_extend;
use crate::tagset::tag_insert;

verus! {

// ---------------------------------------------------------------------
// Plain helpers over member lists.
// ---------------------------------------------------------------------

/// The key of a refined member.
pub open spec fn refined_key(m: RefinedMemberV) -> PropKeyV {
    match m {
        RefinedMemberV::Property(p) => p.key,
        RefinedMemberV::Getter(p) => p.key,
        RefinedMemberV::Method(s) => s.key,
    }
}

/// The key-location token of a refined member.
pub open spec fn refined_key_span(m: RefinedMemberV) -> u32 {
    match m {
        RefinedMemberV::Property(p) => p.key_span,
        RefinedMemberV::Getter(p) => p.key_span,
        RefinedMemberV::Method(s) => s.key_span,
    }
}

/// Whether a refined member is declared optional.
pub open spec fn refined_optional(m: RefinedMemberV) -> bool {
    match m {
        RefinedMemberV::Property(p) => p.optional,
        RefinedMemberV::Getter(p) => p.optional,
        RefinedMemberV::Method(s) => s.optional,
    }
}

/// The same member with its optional-flag rewritten.
pub open spec fn with_optional(m: RefinedMemberV, b: bool) -> RefinedMemberV {
    match m {
        RefinedMemberV::Property(p) => RefinedMemberV::Property(
            crate::model::PropSigV { optional: b, ..p },
        ),
        RefinedMemberV::Getter(p) => RefinedMemberV::Getter(
            crate::model::PropSigV { optional: b, ..p },
        ),
        RefinedMemberV::Method(s) => RefinedMemberV::Method(
            crate::model::MethodSigV { optional: b, ..s },
        ),
    }
}

/// Property flattening of a member list: properties, getters and methods
/// pass through in declaration order; setters, call/construct and index
/// signatures are dropped.
pub open spec fn spec_refine(ms: Seq<MemberV>) -> Seq<RefinedMemberV>
    decreases ms.len(),
{
    if ms.len() == 0 {
        Seq::empty()
    } else {
        let rest = spec_refine(ms.drop_last());
        match ms.last() {
            MemberV::Property(p) => rest.push(RefinedMemberV::Property(p)),
            MemberV::Getter(p) => rest.push(RefinedMemberV::Getter(p)),
            MemberV::Method(s) => rest.push(RefinedMemberV::Method(s)),
            _ => rest,
        }
    }
}

/// Every member's optional-flag rewritten to `b`.
pub open spec fn set_optional_all(ms: Seq<RefinedMemberV>, b: bool) -> Seq<RefinedMemberV> {
    ms.map_values(|m: RefinedMemberV| with_optional(m, b))
}

/// Whether a member key textually matches one of the resolved keys:
/// identifier and string-literal keys compare by value, every other key
/// form matches nothing.
pub open spec fn key_in(k: PropKeyV, keys: Seq<Seq<char>>) -> bool {
    match k {
        PropKeyV::Ident(s) => keys.contains(s),
        PropKeyV::StrKey(s) => keys.contains(s),
        _ => false,
    }
}

/// The members whose key-match status equals `keep`, in order.
pub open spec fn spec_filter_keys(ms: Seq<RefinedMemberV>, keys: Seq<Seq<char>>, keep: bool) -> Seq<
    RefinedMemberV,
>
    decreases ms.len(),
{
    if ms.len() == 0 {
        Seq::empty()
    } else {
        let rest = spec_filter_keys(ms.drop_last(), keys, keep);
        if key_in(refined_key(ms.last()), keys) == keep {
            rest.push(ms.last())
        } else {
            rest
        }
    }
}

/// The string-literal values among a union's branches, in branch order;
/// other branches are silently ignored.
pub open spec fn collect_str_lits(ts: Seq<TypeNodeV>) -> Seq<Seq<char>>
    decreases ts.len(),
{
    if ts.len() == 0 {
        Seq::empty()
    } else {
        let rest = collect_str_lits(ts.drop_last());
        match ts.last().kind {
            TypeKindV::Lit(LitV::StrLit(s)) => rest.push(s),
            _ => rest,
        }
    }
}

/// The synthesized reference node that stands for a method's value type.
pub open spec fn synth_fn_ref() -> TypeNodeV {
    TypeNodeV {
        span: 0,
        kind: TypeKindV::Ref(
            RefNameV { sym: "Function"@, scope: 0, unresolved: false },
            Seq::empty(),
        ),
    }
}

/// The synthesized reference node under which an interface parent is
/// resolved.
pub open spec fn synth_parent_ref(p: RefNameV) -> TypeNodeV {
    TypeNodeV { span: 0, kind: TypeKindV::Ref(p, Seq::empty()) }
}

/// The synthesized reference nodes of an interface's parents, in order.
pub open spec fn synth_parents(extends: Seq<RefNameV>) -> Seq<TypeNodeV> {
    extends.map_values(|p: RefNameV| synth_parent_ref(p))
}

/// Member value types gathered for an access indexed by the `string`
/// keyword: typed properties and getters under identifier or string keys,
/// index-signature value types, and a synthesized function reference for
/// every method.
pub open spec fn collect_all_types(ms: Seq<MemberV>) -> Seq<TypeNodeV>
    decreases ms.len(),
{
    if ms.len() == 0 {
        Seq::empty()
    } else {
        let rest = collect_all_types(ms.drop_last());
        match ms.last() {
            MemberV::Property(p) => match p.key {
                PropKeyV::Ident(_) => match p.type_ann {
                    Some(t) => rest.push(t),
                    None => rest,
                },
                PropKeyV::StrKey(_) => match p.type_ann {
                    Some(t) => rest.push(t),
                    None => rest,
                },
                _ => rest,
            },
            MemberV::Getter(p) => match p.key {
                PropKeyV::Ident(_) => match p.type_ann {
                    Some(t) => rest.push(t),
                    None => rest,
                },
                PropKeyV::StrKey(_) => match p.type_ann {
                    Some(t) => rest.push(t),
                    None => rest,
                },
                _ => rest,
            },
            MemberV::IndexSig(o) => match o {
                Some(t) => rest.push(t),
                None => rest,
            },
            MemberV::Method(_) => rest.push(synth_fn_ref()),
            _ => rest,
        }
    }
}

/// Member value types gathered for an access indexed by a concrete key
/// set: typed properties and getters whose key matches, and a synthesized
/// function reference for every matching method; index signatures do not
/// participate here.
pub open spec fn collect_keyed_types(ms: Seq<MemberV>, keys: Seq<Seq<char>>) -> Seq<TypeNodeV>
    decreases ms.len(),
{
    if ms.len() == 0 {
        Seq::empty()
    } else {
        let rest = collect_keyed_types(ms.drop_last(), keys);
        match ms.last() {
            MemberV::Property(p) => if key_in(p.key, keys) {
                match p.type_ann {
                    Some(t) => rest.push(t),
                    None => rest,
                }
            } else {
                rest
            },
            MemberV::Getter(p) => if key_in(p.key, keys) {
                match p.type_ann {
                    Some(t) => rest.push(t),
                    None => rest,
                }
            } else {
                rest
            },
            MemberV::Method(s) => if key_in(s.key, keys) {
                rest.push(synth_fn_ref())
            } else {
                rest
            },
            _ => rest,
        }
    }
}

/// Collapse a gathered type list: exactly one match is that type itself;
/// zero or several matches form a union node (an empty union encodes "no
/// such key").
pub open spec fn collapse_types(tys: Seq<TypeNodeV>) -> TypeNodeV {
    if tys.len() == 1 {
        tys[0]
    } else {
        TypeNodeV { span: 0, kind: TypeKindV::Union(tys) }
    }
}

/// Whether a node is the `string` keyword.
pub open spec fn is_string_kw(t: TypeNodeV) -> bool {
    match t.kind {
        TypeKindV::Keyword(k) => k == Keyword::KwString,
        _ => false,
    }
}

/// Whether a node indexes by a concrete key set: a string literal, a
/// union, or a type reference.
pub open spec fn is_keyed_index(t: TypeNodeV) -> bool {
    match t.kind {
        TypeKindV::Lit(LitV::StrLit(_)) => true,
        TypeKindV::Union(_) => true,
        TypeKindV::Ref(_, _) => true,
        _ => false,
    }
}

/// Whether a node is the numeric keyword or a numeric literal.
pub open spec fn is_numeric_index(t: TypeNodeV) -> bool {
    match t.kind {
        TypeKindV::Keyword(k) => k == Keyword::KwNumber,
        TypeKindV::Lit(LitV::NumLit(_)) => true,
        _ => false,
    }
}

// ---------------------------------------------------------------------
// Runtime-category tags of simple shapes.
// ---------------------------------------------------------------------

/// The category a keyword type produces; `null` and the unknown-like
/// keywords produce the absent tag.
pub open spec fn kw_tag(k: Keyword) -> Option<Tag> {
    match k {
        Keyword::KwString => Some(Tag::TString),
        Keyword::KwNumber => Some(Tag::TNumber),
        Keyword::KwBoolean => Some(Tag::TBoolean),
        Keyword::KwObject => Some(Tag::TObject),
        Keyword::KwNull => None,
        Keyword::KwBigInt => Some(Tag::TBigInt),
        Keyword::KwSymbol => Some(Tag::TSymbol),
        Keyword::KwOther => None,
    }
}

/// The category of a literal type's underlying primitive.
pub open spec fn lit_tag(l: LitV) -> Option<Tag> {
    match l {
        LitV::StrLit(_) => Some(Tag::TString),
        LitV::TplLit => Some(Tag::TString),
        LitV::BoolLit(_) => Some(Tag::TBoolean),
        LitV::NumLit(_) => Some(Tag::TNumber),
        LitV::BigIntLit(_) => Some(Tag::TNumber),
    }
}

/// The category one member of an object-like type contributes: function
/// for call/construct signatures, object for everything else.
pub open spec fn member_obj_tag(m: MemberV) -> Option<Tag> {
    match m {
        MemberV::CallSig => Some(Tag::TFunction),
        MemberV::CtorSig => Some(Tag::TFunction),
        _ => Some(Tag::TObject),
    }
}

/// The tag set of an object-like type: each member's contribution,
/// inserted in declaration order.
pub open spec fn obj_member_tags(ms: Seq<MemberV>) -> Seq<Option<Tag>>
    decreases ms.len(),
{
    if ms.len() == 0 {
        Seq::empty()
    } else {
        tag_insert(obj_member_tags(ms.drop_last()), member_obj_tag(ms.last()))
    }
}

/// The present tags of a set, in order: the absent (null/unknown) marker
/// removed.
pub open spec fn drop_absent(ts: Seq<Option<Tag>>) -> Seq<Option<Tag>>
    decreases ts.len(),
{
    if ts.len() == 0 {
        Seq::empty()
    } else {
        let rest = drop_absent(ts.drop_last());
        if ts.last() is Some {
            rest.push(ts.last())
        } else {
            rest
        }
    }
}

/// Everything kept by `drop_absent` was already there.
pub proof fn lemma_drop_absent_subset(ts: Seq<Option<Tag>>, x: Option<Tag>)
    requires
        drop_absent(ts).contains(x),
    ensures
        ts.contains(x),
    decreases ts.len(),
{
    if ts.len() > 0 {
        let rest = drop_absent(ts.drop_last());
        if ts.last() is Some && x == ts.last() {
            assert(ts[ts.len() - 1] == x);
        } else {
            assert(rest.contains(x)) by {
                let i = choose|i: int| 0 <= i < drop_absent(ts).len() && drop_absent(ts)[i] == x;
                if ts.last() is Some {
                    assert(drop_absent(ts)[i] == rest.push(ts.last())[i]);
                }
            }
            lemma_drop_absent_subset(ts.drop_last(), x);
            let j = choose|j: int| 0 <= j < ts.drop_last().len() && ts.drop_last()[j] == x;
            assert(ts[j] == x);
        }
    }
}

/// `drop_absent` keeps a duplicate-free sequence duplicate-free.
pub proof fn lemma_drop_absent_no_duplicates(ts: Seq<Option<Tag>>)
    requires
        ts.no_duplicates(),
    ensures
        drop_absent(ts).no_duplicates(),
    decreases ts.len(),
{
    if ts.len() > 0 {
        assert(ts.drop_last().no_duplicates());
        lemma_drop_absent_no_duplicates(ts.drop_last());
        if ts.last() is Some {
            assert(!drop_absent(ts.drop_last()).contains(ts.last())) by {
                if drop_absent(ts.drop_last()).contains(ts.last()) {
                    lemma_drop_absent_subset(ts.drop_last(), ts.last());
                    let i = choose|i: int|
                        0 <= i < ts.drop_last().len() && ts.drop_last()[i] == ts.last();
                    assert(ts[i] == ts[ts.len() - 1]);
                }
            }
            let rest = drop_absent(ts.drop_last());
            assert forall|i: int, j: int|
                0 <= i < j < rest.push(ts.last()).len() implies rest.push(ts.last())[i] != rest.push(
                ts.last(),
            )[j] by {
                if j < rest.len() {
                } else {
                    assert(rest.push(ts.last())[i] == rest[i]);
                    if rest[i] == ts.last() {
                        assert(rest.contains(ts.last()));
                    }
                }
            }
        }
    }
}

/// The names whose references produce a value of that very constructor.
pub open spec fn is_value_builtin(sym: Seq<char>) -> bool {
    ||| sym == "Array"@
    ||| sym == "Function"@
    ||| sym == "Object"@
    ||| sym == "Set"@
    ||| sym == "Map"@
    ||| sym == "WeakSet"@
    ||| sym == "WeakMap"@
    ||| sym == "Date"@
    ||| sym == "Promise"@
    ||| sym == "Error"@
    ||| sym == "RegExp"@
}

/// The tag a value-producing built-in name stands for.
pub open spec fn value_builtin_tag(sym: Seq<char>) -> Tag {
    if sym == "Array"@ {
        Tag::TArray
    } else if sym == "Function"@ {
        Tag::TFunction
    } else if sym == "Object"@ {
        Tag::TObject
    } else if sym == "Set"@ {
        Tag::TSet
    } else if sym == "Map"@ {
        Tag::TMap
    } else if sym == "WeakSet"@ {
        Tag::TWeakSet
    } else if sym == "WeakMap"@ {
        Tag::TWeakMap
    } else if sym == "Date"@ {
        Tag::TDate
    } else if sym == "Promise"@ {
        Tag::TPromise
    } else if sym == "Error"@ {
        Tag::TError
    } else {
        Tag::TRegExp
    }
}

/// The structural utility operators that always produce a plain object.
pub open spec fn is_object_utility(sym: Seq<char>) -> bool {
    ||| sym == "Partial"@
    ||| sym == "Required"@
    ||| sym == "Readonly"@
    ||| sym == "Record"@
    ||| sym == "Pick"@
    ||| sym == "Omit"@
    ||| sym == "InstanceType"@
}

/// The case-conversion operators, which always produce a string.
pub open spec fn is_string_utility(sym: Seq<char>) -> bool {
    ||| sym == "Uppercase"@
    ||| sym == "Lowercase"@
    ||| sym == "Capitalize"@
    ||| sym == "Uncapitalize"@
}

// ---------------------------------------------------------------------
// The mutually recursive resolution functions.
// ---------------------------------------------------------------------

/// Property flattening of a type node: the ordered, possibly
/// duplicate-name list of refined members it denotes, with the reported
/// diagnostics.
pub open spec fn spec_resolve_props(idx: DeclIndexV, t: TypeNodeV, fuel: nat) -> (
    Seq<RefinedMemberV>,
    Seq<Diagnostic>,
)
    decreases fuel, 1nat, 0nat,
{
    if fuel == 0 {
        (Seq::empty(), seq![Diagnostic { span: t.span, kind: DiagKind::CircularRef }])
    } else {
        match t.kind {
            TypeKindV::Object(ms) => (spec_refine(ms), Seq::empty()),
            TypeKindV::Union(ts) => spec_resolve_props_list(idx, ts, (fuel - 1) as nat),
            TypeKindV::Intersection(ts) => spec_resolve_props_list(idx, ts, (fuel - 1) as nat),
            TypeKindV::Ref(name, args) => spec_resolve_ref(idx, t.span, name, args, fuel),
            TypeKindV::IndexedAccess(obj, ix) => {
                let (res, d1) = spec_indexed_access(idx, *obj, *ix, (fuel - 1) as nat);
                match res {
                    Some(ty) => {
                        let (ms, d2) = spec_resolve_props(idx, ty, (fuel - 1) as nat);
                        (ms, d1 + d2)
                    },
                    None => (
                        Seq::empty(),
                        d1 + seq![Diagnostic { span: t.span, kind: DiagKind::UnresolvableType }],
                    ),
                }
            },
            TypeKindV::Paren(b) => spec_resolve_props(idx, *b, (fuel - 1) as nat),
            TypeKindV::Optional(b) => spec_resolve_props(idx, *b, (fuel - 1) as nat),
            _ => (
                Seq::empty(),
                seq![Diagnostic { span: t.span, kind: DiagKind::UnresolvableType }],
            ),
        }
    }
}

/// Property flattening of a reference: alias substitution, interface
/// flattening, the four member-rewriting utility operators, or an error.
pub open spec fn spec_resolve_ref(
    idx: DeclIndexV,
    span: u32,
    name: RefNameV,
    args: Seq<TypeNodeV>,
    fuel: nat,
) -> (Seq<RefinedMemberV>, Seq<Diagnostic>)
    decreases fuel, 0nat, 0nat,
{
    if fuel == 0 {
        (Seq::empty(), seq![Diagnostic { span, kind: DiagKind::CircularRef }])
    } else if idx.lookup_alias(name.sym, name.scope) is Some {
        spec_resolve_props(idx, idx.lookup_alias(name.sym, name.scope)->Some_0, (fuel - 1) as nat)
    } else if idx.lookup_interface(name.sym, name.scope) is Some {
        let iface = idx.lookup_interface(name.sym, name.scope)->Some_0;
        let own = spec_refine(iface.members);
        let (inherited, ds) = spec_resolve_props_list(
            idx,
            synth_parents(iface.extends),
            (fuel - 1) as nat,
        );
        (own + inherited, ds)
    } else if name.unresolved {
        if name.sym == "Partial"@ {
            if args.len() >= 1 {
                let (ms, ds) = spec_resolve_props(idx, args[0], (fuel - 1) as nat);
                (set_optional_all(ms, true), ds)
            } else {
                (Seq::empty(), Seq::empty())
            }
        } else if name.sym == "Required"@ {
            if args.len() >= 1 {
                let (ms, ds) = spec_resolve_props(idx, args[0], (fuel - 1) as nat);
                (set_optional_all(ms, false), ds)
            } else {
                (Seq::empty(), Seq::empty())
            }
        } else if name.sym == "Pick"@ {
            if args.len() >= 2 {
                let (keys, d1) = spec_resolve_keys(idx, args[1], (fuel - 1) as nat);
                let (ms, d2) = spec_resolve_props(idx, args[0], (fuel - 1) as nat);
                (spec_filter_keys(ms, keys, true), d1 + d2)
            } else {
                (Seq::empty(), Seq::empty())
            }
        } else if name.sym == "Omit"@ {
            if args.len() >= 2 {
                let (keys, d1) = spec_resolve_keys(idx, args[1], (fuel - 1) as nat);
                let (ms, d2) = spec_resolve_props(idx, args[0], (fuel - 1) as nat);
                (spec_filter_keys(ms, keys, false), d1 + d2)
            } else {
                (Seq::empty(), Seq::empty())
            }
        } else {
            (Seq::empty(), seq![Diagnostic { span, kind: DiagKind::UnresolvedRef }])
        }
    } else {
        (Seq::empty(), seq![Diagnostic { span, kind: DiagKind::CrossModule }])
    }
}

/// Property flattening of a list of nodes, concatenated in order.
pub open spec fn spec_resolve_props_list(idx: DeclIndexV, ts: Seq<TypeNodeV>, fuel: nat) -> (
    Seq<RefinedMemberV>,
    Seq<Diagnostic>,
)
    decreases fuel, 2nat, ts.len(),
{
    if ts.len() == 0 {
        (Seq::empty(), Seq::empty())
    } else {
        let (ms1, d1) = spec_resolve_props_list(idx, ts.drop_last(), fuel);
        let (ms2, d2) = spec_resolve_props(idx, ts.last(), fuel);
        (ms1 + ms2, d1 + d2)
    }
}

/// Key-set resolution: the string keys a node denotes, for `Pick`/`Omit`
/// and keyed indexed access.
pub open spec fn spec_resolve_keys(idx: DeclIndexV, t: TypeNodeV, fuel: nat) -> (
    Seq<Seq<char>>,
    Seq<Diagnostic>,
)
    decreases fuel, 1nat, 0nat,
{
    if fuel == 0 {
        (Seq::empty(), seq![Diagnostic { span: t.span, kind: DiagKind::CircularRef }])
    } else {
        match t.kind {
            TypeKindV::Lit(LitV::StrLit(s)) => (seq![s], Seq::empty()),
            TypeKindV::Union(ts) => (collect_str_lits(ts), Seq::empty()),
            TypeKindV::Ref(name, _args) => {
                if idx.lookup_alias(name.sym, name.scope) is Some {
                    spec_resolve_keys(
                        idx,
                        idx.lookup_alias(name.sym, name.scope)->Some_0,
                        (fuel - 1) as nat,
                    )
                } else if name.unresolved {
                    (
                        Seq::empty(),
                        seq![Diagnostic { span: t.span, kind: DiagKind::UnresolvedRef }],
                    )
                } else {
                    (Seq::empty(), seq![Diagnostic { span: t.span, kind: DiagKind::CrossModule }])
                }
            },
            _ => (
                Seq::empty(),
                seq![Diagnostic { span: t.span, kind: DiagKind::UnsupportedIndexKey }],
            ),
        }
    }
}

/// Indexed-access resolution: the type (if any) an `Object[Key]` access
/// yields.
pub open spec fn spec_indexed_access(idx: DeclIndexV, obj: TypeNodeV, ix: TypeNodeV, fuel: nat) -> (
    Option<TypeNodeV>,
    Seq<Diagnostic>,
)
    decreases fuel, 1nat, 0nat,
{
    if fuel == 0 {
        (None, seq![Diagnostic { span: obj.span, kind: DiagKind::CircularRef }])
    } else {
        match obj.kind {
            TypeKindV::Ref(name, args) => {
                if idx.lookup_alias(name.sym, name.scope) is Some {
                    spec_indexed_access(
                        idx,
                        idx.lookup_alias(name.sym, name.scope)->Some_0,
                        ix,
                        (fuel - 1) as nat,
                    )
                } else if idx.lookup_interface(name.sym, name.scope) is Some {
                    let iface = idx.lookup_interface(name.sym, name.scope)->Some_0;
                    if is_string_kw(ix) {
                        (Some(collapse_types(collect_all_types(iface.members))), Seq::empty())
                    } else if is_keyed_index(ix) {
                        let (keys, ds) = spec_resolve_keys(idx, ix, (fuel - 1) as nat);
                        (Some(collapse_types(collect_keyed_types(iface.members, keys))), ds)
                    } else {
                        (Some(collapse_types(Seq::empty())), Seq::empty())
                    }
                } else if name.unresolved && name.sym == "Array"@ {
                    if args.len() >= 1 {
                        (Some(args[0]), Seq::empty())
                    } else {
                        (None, Seq::empty())
                    }
                } else {
                    (None, Seq::empty())
                }
            },
            TypeKindV::Object(ms) => {
                if is_string_kw(ix) {
                    (Some(collapse_types(collect_all_types(ms))), Seq::empty())
                } else if is_keyed_index(ix) {
                    let (keys, ds) = spec_resolve_keys(idx, ix, (fuel - 1) as nat);
                    (Some(collapse_types(collect_keyed_types(ms, keys))), ds)
                } else {
                    (Some(collapse_types(Seq::empty())), Seq::empty())
                }
            },
            TypeKindV::Array(elem) => {
                if is_numeric_index(ix) {
                    (Some(*elem), Seq::empty())
                } else {
                    (None, Seq::empty())
                }
            },
            TypeKindV::Tuple(elems) => {
                match ix.kind {
                    TypeKindV::Lit(LitV::NumLit(n)) => {
                        if n < elems.len() {
                            (Some(elems[n as int]), Seq::empty())
                        } else {
                            (None, Seq::empty())
                        }
                    },
                    TypeKindV::Keyword(k) => {
                        if k == Keyword::KwNumber {
                            (
                                Some(TypeNodeV { span: 0, kind: TypeKindV::Union(elems) }),
                                Seq::empty(),
                            )
                        } else {
                            (None, Seq::empty())
                        }
                    },
                    _ => (None, Seq::empty()),
                }
            },
            _ => (None, Seq::empty()),
        }
    }
}

/// Runtime-category inference: the ordered tag set a node can produce.
pub open spec fn spec_infer_tags(idx: DeclIndexV, t: TypeNodeV, fuel: nat) -> (
    Seq<Option<Tag>>,
    Seq<Diagnostic>,
)
    decreases fuel, 1nat, 0nat,
{
    if fuel == 0 {
        (Seq::empty(), seq![Diagnostic { span: t.span, kind: DiagKind::CircularRef }])
    } else {
        match t.kind {
            TypeKindV::Keyword(k) => (seq![kw_tag(k)], Seq::empty()),
            TypeKindV::Object(ms) => (obj_member_tags(ms), Seq::empty()),
            TypeKindV::FnOrCtor => (seq![Some(Tag::TFunction)], Seq::empty()),
            TypeKindV::Array(_) => (seq![Some(Tag::TArray)], Seq::empty()),
            TypeKindV::Tuple(_) => (seq![Some(Tag::TArray)], Seq::empty()),
            TypeKindV::Lit(l) => (seq![lit_tag(l)], Seq::empty()),
            TypeKindV::Ref(name, args) => spec_infer_ref(idx, name, args, fuel),
            TypeKindV::Paren(b) => spec_infer_tags(idx, *b, (fuel - 1) as nat),
            TypeKindV::Optional(b) => spec_infer_tags(idx, *b, (fuel - 1) as nat),
            TypeKindV::Union(ts) => spec_infer_list(idx, ts, (fuel - 1) as nat),
            TypeKindV::Intersection(ts) => spec_infer_list(idx, ts, (fuel - 1) as nat),
            TypeKindV::IndexedAccess(obj, ix) => {
                let (res, d1) = spec_indexed_access(idx, *obj, *ix, (fuel - 1) as nat);
                match res {
                    Some(ty) => {
                        let (ts, d2) = spec_infer_tags(idx, ty, (fuel - 1) as nat);
                        (ts, d1 + d2)
                    },
                    None => (Seq::empty(), d1),
                }
            },
            TypeKindV::Other => (seq![Some(Tag::TObject)], Seq::empty()),
        }
    }
}

/// Runtime-category inference for a reference: alias substitution,
/// interface shape, the recognized built-in names, or the object default.
pub open spec fn spec_infer_ref(
    idx: DeclIndexV,
    name: RefNameV,
    args: Seq<TypeNodeV>,
    fuel: nat,
) -> (Seq<Option<Tag>>, Seq<Diagnostic>)
    decreases fuel, 0nat, 0nat,
{
    if fuel == 0 {
        (Seq::empty(), seq![Diagnostic { span: 0, kind: DiagKind::CircularRef }])
    } else if idx.lookup_alias(name.sym, name.scope) is Some {
        spec_infer_tags(idx, idx.lookup_alias(name.sym, name.scope)->Some_0, (fuel - 1) as nat)
    } else if idx.lookup_interface(name.sym, name.scope) is Some {
        (obj_member_tags(idx.lookup_interface(name.sym, name.scope)->Some_0.members), Seq::empty())
    } else if is_value_builtin(name.sym) {
        (seq![Some(value_builtin_tag(name.sym))], Seq::empty())
    } else if is_object_utility(name.sym) {
        (seq![Some(Tag::TObject)], Seq::empty())
    } else if is_string_utility(name.sym) {
        (seq![Some(Tag::TString)], Seq::empty())
    } else if name.sym == "Parameters"@ || name.sym == "ConstructorParameters"@ {
        (seq![Some(Tag::TArray)], Seq::empty())
    } else if name.sym == "NonNullable"@ {
        if args.len() >= 1 {
            let (ts, ds) = spec_infer_tags(idx, args[0], (fuel - 1) as nat);
            let kept = drop_absent(ts);
            if kept.len() == 0 {
                (seq![Some(Tag::TObject)], ds)
            } else {
                (kept, ds)
            }
        } else {
            (seq![Some(Tag::TObject)], Seq::empty())
        }
    } else if name.sym == "Exclude"@ || name.sym == "OmitThisParameter"@ {
        if args.len() >= 1 {
            spec_infer_tags(idx, args[0], (fuel - 1) as nat)
        } else {
            (seq![Some(Tag::TObject)], Seq::empty())
        }
    } else if name.sym == "Extract"@ {
        if args.len() >= 2 {
            spec_infer_tags(idx, args[1], (fuel - 1) as nat)
        } else {
            (seq![Some(Tag::TObject)], Seq::empty())
        }
    } else {
        (seq![Some(Tag::TObject)], Seq::empty())
    }
}

/// Runtime-category inference over a list of branches: the ordered union
/// of every branch's tags.
pub open spec fn spec_infer_list(idx: DeclIndexV, ts: Seq<TypeNodeV>, fuel: nat) -> (
    Seq<Option<Tag>>,
    Seq<Diagnostic>,
)
    decreases fuel, 2nat, ts.len(),
{
    if ts.len() == 0 {
        (Seq::empty(), Seq::empty())
    } else {
        let (acc, d1) = spec_infer_list(idx, ts.drop_last(), fuel);
        let (bt, d2) = spec_infer_tags(idx, ts.last(), fuel);
        (tag_extend(acc, bt), d1 + d2)
    }
}

// ---------------------------------------------------------------------
// The property table.
// ---------------------------------------------------------------------

/// The table name of a property key; an unsupported key is reported and
/// recorded under the empty-string placeholder.
pub open spec fn spec_prop_name(k: PropKeyV, key_span: u32) -> (PropNameV, Seq<Diagnostic>) {
    match k {
        PropKeyV::Ident(s) => (PropNameV::Ident(s), Seq::empty()),
        PropKeyV::StrKey(s) => (PropNameV::StrName(s), Seq::empty()),
        PropKeyV::NumKey(n) => (PropNameV::NumName(n), Seq::empty()),
        PropKeyV::BigIntKey(s) => (PropNameV::BigIntName(s), Seq::empty()),
        PropKeyV::Unsupported => (
            PropNameV::Ident(Seq::empty()),
            seq![Diagnostic { span: key_span, kind: DiagKind::UnsupportedPropKey }],
        ),
    }
}

/// The tag set one refined member contributes: the inferred tags of its
/// declared type, the absent-tag singleton when untyped, or the function
/// singleton for a method.
pub open spec fn spec_member_tags(idx: DeclIndexV, m: RefinedMemberV, fuel: nat) -> (
    Seq<Option<Tag>>,
    Seq<Diagnostic>,
)
{
    match m {
        RefinedMemberV::Property(p) => match p.type_ann {
            Some(ty) => spec_infer_tags(idx, ty, fuel),
            None => (seq![None], Seq::empty()),
        },
        RefinedMemberV::Getter(p) => match p.type_ann {
            Some(ty) => spec_infer_tags(idx, ty, fuel),
            None => (seq![None], Seq::empty()),
        },
        RefinedMemberV::Method(_) => (seq![Some(Tag::TFunction)], Seq::empty()),
    }
}

/// The position of the first table entry recorded under `name`, if any.
pub open spec fn find_entry(es: Seq<PropDescriptorV>, name: PropNameV) -> Option<int>
    decreases es.len(),
{
    if es.len() == 0 {
        None
    } else if es[0].name == name {
        Some(0)
    } else {
        match find_entry(es.drop_first(), name) {
            Some(i) => Some(i + 1),
            None => None,
        }
    }
}

/// One merge step of the table builder: a first-seen name starts a new
/// entry at the end; a later occurrence of a recorded name extends that
/// entry's tag set and, when optional, downgrades it to non-required.
pub open spec fn spec_table_step(
    idx: DeclIndexV,
    es: Seq<PropDescriptorV>,
    m: RefinedMemberV,
    fuel: nat,
) -> (Seq<PropDescriptorV>, Seq<Diagnostic>) {
    let (name, d1) = spec_prop_name(refined_key(m), refined_key_span(m));
    let (tags, d2) = spec_member_tags(idx, m, fuel);
    match find_entry(es, name) {
        Some(i) => (
            es.update(
                i,
                PropDescriptorV {
                    name: es[i].name,
                    tags: tag_extend(es[i].tags, tags),
                    required: es[i].required && !refined_optional(m),
                },
            ),
            d1 + d2,
        ),
        None => (
            es.push(PropDescriptorV { name, tags, required: !refined_optional(m) }),
            d1 + d2,
        ),
    }
}

/// The merged property table of a refined member list, in first-seen
/// order.
pub open spec fn spec_build_table(idx: DeclIndexV, ms: Seq<RefinedMemberV>, fuel: nat) -> (
    Seq<PropDescriptorV>,
    Seq<Diagnostic>,
)
    decreases ms.len(),
{
    if ms.len() == 0 {
        (Seq::empty(), Seq::empty())
    } else {
        let (es, d1) = spec_build_table(idx, ms.drop_last(), fuel);
        let (es2, d2) = spec_table_step(idx, es, ms.last(), fuel);
        (es2, d1 + d2)
    }
}

/// Full resolution of one annotation: flatten its properties, then merge
/// them into the table.
pub open spec fn spec_resolve_table(idx: DeclIndexV, t: TypeNodeV, fuel: nat) -> (
    Seq<PropDescriptorV>,
    Seq<Diagnostic>,
) {
    let (ms, d1) = spec_resolve_props(idx, t, fuel);
    let (es, d2) = spec_build_table(idx, ms, fuel);
    (es, d1 + d2)
}

} // verus!
