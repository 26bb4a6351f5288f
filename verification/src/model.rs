//! Mathematical model of the annotation tree and of the resolution results.
//!
//! Every executable data type of [`crate::ast`] has a mirror here in which
//! strings are sequences of characters and vectors are sequences, so that
//! contracts can speak of values up to their textual content, independent
//! of heap identity.

use vstd::prelude::*;

use crate::ast::Keyword;
use crate::ast::Tag;

verus! {

/// A type-reference name: its spelling, the lexical-scope token the front
/// end attached to it, and the front end's classification of whether the
/// name is locally unresolved (a candidate built-in/global).
#[verifier::ext_equal]
pub ghost struct RefNameV {
    pub sym: Seq<char>,
    pub scope: u32,
    pub unresolved: bool,
}

/// A literal type.
#[verifier::ext_equal]
pub ghost enum LitV {
    StrLit(Seq<char>),
    NumLit(u64),
    BoolLit(bool),
    BigIntLit(Seq<char>),
    TplLit,
}

/// A property key as written in a member declaration.
#[verifier::ext_equal]
pub ghost enum PropKeyV {
    Ident(Seq<char>),
    StrKey(Seq<char>),
    NumKey(u64),
    BigIntKey(Seq<char>),
    Unsupported,
}

/// A property or getter signature.
#[verifier::ext_equal]
pub ghost struct PropSigV {
    pub key: PropKeyV,
    pub key_span: u32,
    pub optional: bool,
    pub type_ann: Option<TypeNodeV>,
}

/// A method signature; only its key and optionality matter to resolution.
#[verifier::ext_equal]
pub ghost struct MethodSigV {
    pub key: PropKeyV,
    pub key_span: u32,
    pub optional: bool,
}

/// A member of an interface or inline object type.
#[verifier::ext_equal]
pub ghost enum MemberV {
    Property(PropSigV),
    Getter(PropSigV),
    Method(MethodSigV),
    Setter,
    CallSig,
    CtorSig,
    IndexSig(Option<TypeNodeV>),
}

/// The member kinds that property flattening propagates.
#[verifier::ext_equal]
pub ghost enum RefinedMemberV {
    Property(PropSigV),
    Getter(PropSigV),
    Method(MethodSigV),
}

/// A node of the annotation tree.
#[verifier::ext_equal]
pub ghost struct TypeNodeV {
    pub span: u32,
    pub kind: TypeKindV,
}

/// The shape of a type node.
#[verifier::ext_equal]
pub ghost enum TypeKindV {
    Keyword(Keyword),
    Lit(LitV),
    Ref(RefNameV, Seq<TypeNodeV>),
    Object(Seq<MemberV>),
    FnOrCtor,
    Array(Box<TypeNodeV>),
    Tuple(Seq<TypeNodeV>),
    Union(Seq<TypeNodeV>),
    Intersection(Seq<TypeNodeV>),
    IndexedAccess(Box<TypeNodeV>, Box<TypeNodeV>),
    Paren(Box<TypeNodeV>),
    Optional(Box<TypeNodeV>),
    Other,
}

/// A type-alias declaration, keyed by name and scope token.
#[verifier::ext_equal]
pub ghost struct AliasDeclV {
    pub name: Seq<char>,
    pub scope: u32,
    pub ty: TypeNodeV,
}

/// An interface declaration: ordered members plus parent references.
#[verifier::ext_equal]
pub ghost struct InterfaceDeclV {
    pub name: Seq<char>,
    pub scope: u32,
    pub members: Seq<MemberV>,
    pub extends: Seq<RefNameV>,
}

/// The read-only declaration index a resolution session runs against.
#[verifier::ext_equal]
pub ghost struct DeclIndexV {
    pub aliases: Seq<AliasDeclV>,
    pub interfaces: Seq<InterfaceDeclV>,
}

/// The name under which a property is recorded in the output table.
#[verifier::ext_equal]
pub ghost enum PropNameV {
    Ident(Seq<char>),
    StrName(Seq<char>),
    NumName(u64),
    BigIntName(Seq<char>),
}

/// One entry of the finished property table: name, category tags in
/// first-insertion order (`None` is the null/unknown marker), and whether
/// the property is mandatory.
#[verifier::ext_equal]
pub ghost struct PropDescriptorV {
    pub name: PropNameV,
    pub tags: Seq<Option<Tag>>,
    pub required: bool,
}

impl DeclIndexV {
    /// The type a (name, scope) pair is aliased to: the first matching
    /// alias declaration, if any.
    pub open spec fn lookup_alias(self, sym: Seq<char>, scope: u32) -> Option<TypeNodeV>
        decreases self.aliases.len(),
    {
        if self.aliases.len() == 0 {
            None
        } else if self.aliases[0].name == sym && self.aliases[0].scope == scope {
            Some(self.aliases[0].ty)
        } else {
            (DeclIndexV { aliases: self.aliases.drop_first(), ..self }).lookup_alias(sym, scope)
        }
    }

    /// The interface a (name, scope) pair declares: the first matching
    /// interface declaration, if any.
    pub open spec fn lookup_interface(self, sym: Seq<char>, scope: u32) -> Option<InterfaceDeclV>
        decreases self.interfaces.len(),
    {
        if self.interfaces.len() == 0 {
            None
        } else if self.interfaces[0].name == sym && self.interfaces[0].scope == scope {
            Some(self.interfaces[0])
        } else {
            (DeclIndexV { interfaces: self.interfaces.drop_first(), ..self }).lookup_interface(
                sym,
                scope,
            )
        }
    }
}

} // verus!
