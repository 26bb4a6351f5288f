//! The executable annotation tree, declaration index, and resolution
//! outputs.
//!
//! Nodes are plain owned values; the front end that parses source text
//! builds them, attaching to every node a source-location token (`span`)
//! and to every reference name a lexical-scope token plus the front end's
//! classification of whether the name is locally unresolved.

use vstd::prelude::*;

use crate::model::AliasDeclV;
use crate::model::DeclIndexV;
use crate::model::InterfaceDeclV;
use crate::model::LitV;
use crate::model::MemberV;
use crate::model::MethodSigV;
use crate::model::PropDescriptorV;
use crate::model::PropKeyV;
use crate::model::PropNameV;
use crate::model::PropSigV;
use crate::model::RefNameV;
use crate::model::RefinedMemberV;
use crate::model::TypeKindV;
use crate::model::TypeNodeV;

verus! {

/// A keyword type's category.
#[derive(Clone, Copy, PartialEq, Eq, Structural, Debug)]
pub enum Keyword {
    KwString,
    KwNumber,
    KwBoolean,
    KwObject,
    KwNull,
    KwBigInt,
    KwSymbol,
    /// Any other keyword (`any`, `unknown`, `void`, `never`, `undefined`, ...).
    KwOther,
}

/// An abstract runtime value category.
///
/// Category sets are stored as `Option<Tag>` values: a present tag names a
/// runtime constructor category, an absent tag marks "null/unknown".
#[derive(Clone, Copy, PartialEq, Eq, Structural, Debug)]
pub enum Tag {
    TString,
    TNumber,
    TBoolean,
    TObject,
    TBigInt,
    TSymbol,
    TFunction,
    TArray,
    TSet,
    TMap,
    TWeakSet,
    TWeakMap,
    TDate,
    TPromise,
    TError,
    TRegExp,
}

/// The error conditions resolution can report. All are non-fatal: the
/// offending construct resolves to an empty or placeholder value and
/// resolution of sibling properties continues.
#[derive(Clone, Copy, PartialEq, Eq, Structural, Debug)]
pub enum DiagKind {
    /// A reference not found in either table and not a recognized
    /// built-in or utility name.
    UnresolvedRef,
    /// A reference not found locally and not classified as a
    /// built-in/global by the front end.
    CrossModule,
    /// A type used as a key that is not a string literal, a union of
    /// string literals, or a resolvable alias to one.
    UnsupportedIndexKey,
    /// A type used where an object-shaped type is required, or an
    /// indexed access that cannot be evaluated.
    UnresolvableType,
    /// A property key that is not an identifier or a supported literal.
    UnsupportedPropKey,
    /// The recursion guard tripped: the alias/interface graph is deeper
    /// than the fuel allows, which indicates a circular reference.
    CircularRef,
}

/// One report to the diagnostics channel: a source-location token and an
/// error condition.
#[derive(Clone, Copy, PartialEq, Eq, Structural, Debug)]
pub struct Diagnostic {
    pub span: u32,
    pub kind: DiagKind,
}

impl DiagKind {
    /// The report text of this error condition.
    pub fn message(&self) -> (r: &'static str)
        ensures
            *self == DiagKind::UnresolvedRef ==> r@
                == "Unresolvable type reference or unsupported built-in utility type."@,
            *self == DiagKind::CrossModule ==> r@
                == "Types from other modules can't be resolved."@,
            *self == DiagKind::UnsupportedIndexKey ==> r@ == "Unsupported type as index key."@,
            *self == DiagKind::UnresolvableType ==> r@ == "Unresolvable type."@,
            *self == DiagKind::UnsupportedPropKey ==> r@ == "Unsupported prop key."@,
            *self == DiagKind::CircularRef ==> r@ == "Circular type reference."@,
    {
        match self {
            DiagKind::UnresolvedRef => "Unresolvable type reference or unsupported built-in utility type.",
            DiagKind::CrossModule => "Types from other modules can't be resolved.",
            DiagKind::UnsupportedIndexKey => "Unsupported type as index key.",
            DiagKind::UnresolvableType => "Unresolvable type.",
            DiagKind::UnsupportedPropKey => "Unsupported prop key.",
            DiagKind::CircularRef => "Circular type reference.",
        }
    }
}

/// A type-reference name.
pub struct RefName {
    /// The spelling of the name.
    pub sym: String,
    /// The lexical-scope token the front end attached to the name;
    /// declarations are looked up by (spelling, scope).
    pub scope: u32,
    /// The front end's classification: true when the name is not shadowed
    /// by any import or local declaration, so it may denote a built-in.
    pub unresolved: bool,
}

/// A literal type.
pub enum Lit {
    StrLit(String),
    NumLit(u64),
    BoolLit(bool),
    BigIntLit(String),
    TplLit,
}

/// A property key as written in a member declaration.
pub enum PropKey {
    Ident(String),
    StrKey(String),
    NumKey(u64),
    BigIntKey(String),
    /// A computed or otherwise unsupported key form.
    Unsupported,
}

/// A property or getter signature.
pub struct PropSig {
    pub key: PropKey,
    /// The source-location token of the key, for diagnostics.
    pub key_span: u32,
    pub optional: bool,
    pub type_ann: Option<Box<TypeNode>>,
}

/// A method signature; only its key and optionality matter to resolution.
pub struct MethodSig {
    pub key: PropKey,
    pub key_span: u32,
    pub optional: bool,
}

/// A member of an interface or inline object type.
pub enum Member {
    Property(PropSig),
    Getter(PropSig),
    Method(MethodSig),
    Setter,
    CallSig,
    CtorSig,
    IndexSig(Option<Box<TypeNode>>),
}

/// The member kinds that property flattening propagates.
pub enum RefinedMember {
    Property(PropSig),
    Getter(PropSig),
    Method(MethodSig),
}

/// A node of the annotation tree.
pub struct TypeNode {
    /// The source-location token of the node, for diagnostics.
    pub span: u32,
    pub kind: TypeKind,
}

/// The shape of a type node.
pub enum TypeKind {
    Keyword(Keyword),
    Lit(Lit),
    /// A reference: name plus type arguments (empty when none are written).
    Ref(RefName, Vec<TypeNode>),
    /// An inline structural object type.
    Object(Vec<Member>),
    /// A function or constructor signature type.
    FnOrCtor,
    Array(Box<TypeNode>),
    Tuple(Vec<TypeNode>),
    Union(Vec<TypeNode>),
    Intersection(Vec<TypeNode>),
    IndexedAccess(Box<TypeNode>, Box<TypeNode>),
    Paren(Box<TypeNode>),
    Optional(Box<TypeNode>),
    /// Any other shape (mapped, conditional, query, ... types).
    Other,
}

/// A type-alias declaration.
pub struct AliasDecl {
    pub name: String,
    pub scope: u32,
    pub ty: TypeNode,
}

/// An interface declaration: ordered members plus parent references.
pub struct InterfaceDecl {
    pub name: String,
    pub scope: u32,
    pub members: Vec<Member>,
    pub extends: Vec<RefName>,
}

/// The read-only declaration index a resolution session runs against. It
/// is built by the front end once per source unit and never mutated by
/// the resolvers.
pub struct DeclIndex {
    pub aliases: Vec<AliasDecl>,
    pub interfaces: Vec<InterfaceDecl>,
}

/// The name under which a property is recorded in the output table.
#[derive(PartialEq, Eq, Debug)]
pub enum PropName {
    Ident(String),
    StrName(String),
    NumName(u64),
    BigIntName(String),
}

/// One entry of the finished property table.
#[derive(PartialEq, Eq, Debug)]
pub struct PropDescriptor {
    pub name: PropName,
    /// The property's category tags, in first-insertion order, without
    /// duplicates. `None` is the null/unknown marker.
    pub tags: Vec<Option<Tag>>,
    pub required: bool,
}

// ---------------------------------------------------------------------
// Views: each executable type is abstracted to its model mirror, with
// strings viewed as character sequences and vectors as sequences.
// ---------------------------------------------------------------------

pub open spec fn view_refname(n: RefName) -> RefNameV {
    RefNameV { sym: n.sym@, scope: n.scope, unresolved: n.unresolved }
}

pub open spec fn view_lit(l: Lit) -> LitV {
    match l {
        Lit::StrLit(s) => LitV::StrLit(s@),
        Lit::NumLit(n) => LitV::NumLit(n),
        Lit::BoolLit(b) => LitV::BoolLit(b),
        Lit::BigIntLit(s) => LitV::BigIntLit(s@),
        Lit::TplLit => LitV::TplLit,
    }
}

pub open spec fn view_prop_key(k: PropKey) -> PropKeyV {
    match k {
        PropKey::Ident(s) => PropKeyV::Ident(s@),
        PropKey::StrKey(s) => PropKeyV::StrKey(s@),
        PropKey::NumKey(n) => PropKeyV::NumKey(n),
        PropKey::BigIntKey(s) => PropKeyV::BigIntKey(s@),
        PropKey::Unsupported => PropKeyV::Unsupported,
    }
}

pub open spec fn view_type(t: TypeNode) -> TypeNodeV
    decreases t,
{
    TypeNodeV { span: t.span, kind: view_kind(t.kind) }
}

pub open spec fn view_kind(k: TypeKind) -> TypeKindV
    decreases k,
{
    match k {
        TypeKind::Keyword(kw) => TypeKindV::Keyword(kw),
        TypeKind::Lit(l) => TypeKindV::Lit(view_lit(l)),
        TypeKind::Ref(n, args) => TypeKindV::Ref(view_refname(n), view_types(args@)),
        TypeKind::Object(ms) => TypeKindV::Object(view_members(ms@)),
        TypeKind::FnOrCtor => TypeKindV::FnOrCtor,
        TypeKind::Array(b) => TypeKindV::Array(Box::new(view_type(*b))),
        TypeKind::Tuple(ts) => TypeKindV::Tuple(view_types(ts@)),
        TypeKind::Union(ts) => TypeKindV::Union(view_types(ts@)),
        TypeKind::Intersection(ts) => TypeKindV::Intersection(view_types(ts@)),
        TypeKind::IndexedAccess(o, i) => TypeKindV::IndexedAccess(
            Box::new(view_type(*o)),
            Box::new(view_type(*i)),
        ),
        TypeKind::Paren(b) => TypeKindV::Paren(Box::new(view_type(*b))),
        TypeKind::Optional(b) => TypeKindV::Optional(Box::new(view_type(*b))),
        TypeKind::Other => TypeKindV::Other,
    }
}

pub open spec fn view_types(ts: Seq<TypeNode>) -> Seq<TypeNodeV>
    decreases ts,
{
    if ts.len() == 0 {
        Seq::empty()
    } else {
        view_types(ts.drop_last()).push(view_type(ts.last()))
    }
}

pub open spec fn view_opt_type(o: Option<Box<TypeNode>>) -> Option<TypeNodeV>
    decreases o,
{
    match o {
        Option::None => Option::None,
        Option::Some(b) => Option::Some(view_type(*b)),
    }
}

pub open spec fn view_prop_sig(p: PropSig) -> PropSigV
    decreases p,
{
    PropSigV {
        key: view_prop_key(p.key),
        key_span: p.key_span,
        optional: p.optional,
        type_ann: view_opt_type(p.type_ann),
    }
}

pub open spec fn view_method_sig(m: MethodSig) -> MethodSigV {
    MethodSigV { key: view_prop_key(m.key), key_span: m.key_span, optional: m.optional }
}

pub open spec fn view_member(m: Member) -> MemberV
    decreases m,
{
    match m {
        Member::Property(p) => MemberV::Property(view_prop_sig(p)),
        Member::Getter(p) => MemberV::Getter(view_prop_sig(p)),
        Member::Method(s) => MemberV::Method(view_method_sig(s)),
        Member::Setter => MemberV::Setter,
        Member::CallSig => MemberV::CallSig,
        Member::CtorSig => MemberV::CtorSig,
        Member::IndexSig(o) => MemberV::IndexSig(view_opt_type(o)),
    }
}

pub open spec fn view_members(ms: Seq<Member>) -> Seq<MemberV>
    decreases ms,
{
    if ms.len() == 0 {
        Seq::empty()
    } else {
        view_members(ms.drop_last()).push(view_member(ms.last()))
    }
}

pub open spec fn view_refined(m: RefinedMember) -> RefinedMemberV {
    match m {
        RefinedMember::Property(p) => RefinedMemberV::Property(view_prop_sig(p)),
        RefinedMember::Getter(p) => RefinedMemberV::Getter(view_prop_sig(p)),
        RefinedMember::Method(s) => RefinedMemberV::Method(view_method_sig(s)),
    }
}

pub open spec fn view_refined_seq(ms: Seq<RefinedMember>) -> Seq<RefinedMemberV> {
    Seq::new(ms.len(), |i: int| view_refined(ms[i]))
}

pub open spec fn view_opt_node(o: Option<TypeNode>) -> Option<TypeNodeV> {
    match o {
        Option::None => Option::None,
        Option::Some(t) => Option::Some(view_type(t)),
    }
}

pub open spec fn view_strs(ss: Seq<String>) -> Seq<Seq<char>> {
    Seq::new(ss.len(), |i: int| ss[i]@)
}

pub open spec fn view_alias(a: AliasDecl) -> AliasDeclV {
    AliasDeclV { name: a.name@, scope: a.scope, ty: view_type(a.ty) }
}

pub open spec fn view_interface(d: InterfaceDecl) -> InterfaceDeclV {
    InterfaceDeclV {
        name: d.name@,
        scope: d.scope,
        members: view_members(d.members@),
        extends: Seq::new(d.extends@.len(), |i: int| view_refname(d.extends@[i])),
    }
}

pub open spec fn view_index(idx: DeclIndex) -> DeclIndexV {
    DeclIndexV {
        aliases: Seq::new(idx.aliases@.len(), |i: int| view_alias(idx.aliases@[i])),
        interfaces: Seq::new(idx.interfaces@.len(), |i: int| view_interface(idx.interfaces@[i])),
    }
}

pub open spec fn view_prop_name(n: PropName) -> PropNameV {
    match n {
        PropName::Ident(s) => PropNameV::Ident(s@),
        PropName::StrName(s) => PropNameV::StrName(s@),
        PropName::NumName(v) => PropNameV::NumName(v),
        PropName::BigIntName(s) => PropNameV::BigIntName(s@),
    }
}

pub open spec fn view_descriptor(d: PropDescriptor) -> PropDescriptorV {
    PropDescriptorV { name: view_prop_name(d.name), tags: d.tags@, required: d.required }
}

pub open spec fn view_descriptors(ds: Seq<PropDescriptor>) -> Seq<PropDescriptorV> {
    Seq::new(ds.len(), |i: int| view_descriptor(ds[i]))
}

// ---------------------------------------------------------------------
// Length and indexing facts for the structurally recursive views.
// ---------------------------------------------------------------------

pub proof fn lemma_view_types_len(ts: Seq<TypeNode>)
    ensures
        view_types(ts).len() == ts.len(),
    decreases ts.len(),
{
    if ts.len() > 0 {
        lemma_view_types_len(ts.drop_last());
    }
}

pub proof fn lemma_view_types_index(ts: Seq<TypeNode>, i: int)
    requires
        0 <= i < ts.len(),
    ensures
        view_types(ts).len() == ts.len(),
        view_types(ts)[i] == view_type(ts[i]),
    decreases ts.len(),
{
    lemma_view_types_len(ts);
    if i < ts.len() - 1 {
        lemma_view_types_index(ts.drop_last(), i);
    }
}

// ---------------------------------------------------------------------
// Cloning. Nodes are cloned when resolution synthesizes a type from
// declared members (indexed access, alias parents); every clone keeps
// the value's view.
// ---------------------------------------------------------------------

impl Clone for RefName {
    fn clone(&self) -> (r: Self)
        ensures
            r == *self,
    {
        RefName { sym: self.sym.clone(), scope: self.scope, unresolved: self.unresolved }
    }
}

impl Clone for Lit {
    fn clone(&self) -> (r: Self)
        ensures
            r == *self,
    {
        match self {
            Lit::StrLit(s) => Lit::StrLit(s.clone()),
            Lit::NumLit(n) => Lit::NumLit(*n),
            Lit::BoolLit(b) => Lit::BoolLit(*b),
            Lit::BigIntLit(s) => Lit::BigIntLit(s.clone()),
            Lit::TplLit => Lit::TplLit,
        }
    }
}

impl Clone for PropKey {
    fn clone(&self) -> (r: Self)
        ensures
            r == *self,
    {
        match self {
            PropKey::Ident(s) => PropKey::Ident(s.clone()),
            PropKey::StrKey(s) => PropKey::StrKey(s.clone()),
            PropKey::NumKey(n) => PropKey::NumKey(*n),
            PropKey::BigIntKey(s) => PropKey::BigIntKey(s.clone()),
            PropKey::Unsupported => PropKey::Unsupported,
        }
    }
}

impl Clone for PropName {
    fn clone(&self) -> (r: Self)
        ensures
            r == *self,
    {
        match self {
            PropName::Ident(s) => PropName::Ident(s.clone()),
            PropName::StrName(s) => PropName::StrName(s.clone()),
            PropName::NumName(n) => PropName::NumName(*n),
            PropName::BigIntName(s) => PropName::BigIntName(s.clone()),
        }
    }
}

/// A structurally equal copy of a type node, up to its view.
pub fn clone_type(t: &TypeNode) -> (r: TypeNode)
    ensures
        view_type(r) == view_type(*t),
    decreases *t,
{
    let kind = match &t.kind {
        TypeKind::Keyword(k) => TypeKind::Keyword(*k),
        TypeKind::Lit(l) => TypeKind::Lit(l.clone()),
        TypeKind::Ref(n, args) => TypeKind::Ref(n.clone(), clone_types(args)),
        TypeKind::Object(ms) => TypeKind::Object(clone_members(ms)),
        TypeKind::FnOrCtor => TypeKind::FnOrCtor,
        TypeKind::Array(b) => TypeKind::Array(Box::new(clone_type(b))),
        TypeKind::Tuple(ts) => TypeKind::Tuple(clone_types(ts)),
        TypeKind::Union(ts) => TypeKind::Union(clone_types(ts)),
        TypeKind::Intersection(ts) => TypeKind::Intersection(clone_types(ts)),
        TypeKind::IndexedAccess(o, i) => TypeKind::IndexedAccess(
            Box::new(clone_type(o)),
            Box::new(clone_type(i)),
        ),
        TypeKind::Paren(b) => TypeKind::Paren(Box::new(clone_type(b))),
        TypeKind::Optional(b) => TypeKind::Optional(Box::new(clone_type(b))),
        TypeKind::Other => TypeKind::Other,
    };
    TypeNode { span: t.span, kind }
}

pub fn clone_types(ts: &Vec<TypeNode>) -> (r: Vec<TypeNode>)
    ensures
        view_types(r@) == view_types(ts@),
    decreases *ts,
{
    let mut r: Vec<TypeNode> = Vec::new();
    let n = ts.len();
    let mut i: usize = 0;
    while i < n
        invariant
            n == ts.len(),
            i <= n,
            view_types(r@) == view_types(ts@.take(i as int)),
        decreases n - i,
    {
        let c = clone_type(&ts[i]);
        let ghost r0 = r@;
        r.push(c);
        proof {
            assert(r@.drop_last() =~= r0);
            assert(ts@.take(i + 1 as int).drop_last() =~= ts@.take(i as int));
            assert(ts@.take(i + 1 as int).last() == ts@[i as int]);
        }
        i = i + 1;
    }
    proof {
        assert(ts@.take(n as int) =~= ts@);
    }
    r
}

pub fn clone_opt_type(o: &Option<Box<TypeNode>>) -> (r: Option<Box<TypeNode>>)
    ensures
        view_opt_type(r) == view_opt_type(*o),
    decreases *o,
{
    match o {
        Option::None => Option::None,
        Option::Some(b) => Option::Some(Box::new(clone_type(b))),
    }
}

impl Clone for PropSig {
    fn clone(&self) -> (r: Self)
        ensures
            view_prop_sig(r) == view_prop_sig(*self),
        decreases *self,
    {
        PropSig {
            key: self.key.clone(),
            key_span: self.key_span,
            optional: self.optional,
            type_ann: clone_opt_type(&self.type_ann),
        }
    }
}

impl Clone for MethodSig {
    fn clone(&self) -> (r: Self)
        ensures
            r == *self,
    {
        MethodSig { key: self.key.clone(), key_span: self.key_span, optional: self.optional }
    }
}

impl Clone for RefinedMember {
    fn clone(&self) -> (r: Self)
        ensures
            view_refined(r) == view_refined(*self),
    {
        match self {
            RefinedMember::Property(p) => RefinedMember::Property(p.clone()),
            RefinedMember::Getter(p) => RefinedMember::Getter(p.clone()),
            RefinedMember::Method(s) => RefinedMember::Method(s.clone()),
        }
    }
}

fn clone_member(m: &Member) -> (r: Member)
    ensures
        view_member(r) == view_member(*m),
    decreases *m,
{
    match m {
        Member::Property(p) => Member::Property(p.clone()),
        Member::Getter(p) => Member::Getter(p.clone()),
        Member::Method(s) => Member::Method(s.clone()),
        Member::Setter => Member::Setter,
        Member::CallSig => Member::CallSig,
        Member::CtorSig => Member::CtorSig,
        Member::IndexSig(o) => Member::IndexSig(clone_opt_type(o)),
    }
}

fn clone_members(ms: &Vec<Member>) -> (r: Vec<Member>)
    ensures
        view_members(r@) == view_members(ms@),
    decreases *ms,
{
    let mut r: Vec<Member> = Vec::new();
    let n = ms.len();
    let mut i: usize = 0;
    while i < n
        invariant
            n == ms.len(),
            i <= n,
            view_members(r@) == view_members(ms@.take(i as int)),
        decreases n - i,
    {
        let c = clone_member(&ms[i]);
        let ghost r0 = r@;
        r.push(c);
        proof {
            assert(r@.drop_last() =~= r0);
            assert(ms@.take(i + 1 as int).drop_last() =~= ms@.take(i as int));
            assert(ms@.take(i + 1 as int).last() == ms@[i as int]);
        }
        i = i + 1;
    }
    proof {
        assert(ms@.take(n as int) =~= ms@);
    }
    r
}

/// Whether two strings spell the same word.
pub fn is_word(s: &String, w: &str) -> (r: bool)
    ensures
        r == (s@ == w@),
{
    let ws: String = w.to_owned();
    *s == ws
}

} // verus!
