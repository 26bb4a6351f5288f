//! An insertion-ordered set of runtime-category tags.
//!
//! Category sets must remember first-insertion order while never holding a
//! duplicate; they are kept in an `indexmap::IndexSet` of small integer
//! codes behind trusted wrappers, with a verified `TagSet` type on top that
//! speaks of the set's contents as a sequence of `Option<Tag>` values.

use vstd::prelude::*;

use crate::ast::Tag;

verus! {

#[verifier::external_type_specification]
#[verifier::external_body]
#[verifier::reject_recursive_types(T)]
#[verifier::reject_recursive_types(S)]
pub struct ExIndexSet<T, S>(indexmap::IndexSet<T, S>);

/// The contents of a code set: the codes it holds, in insertion order.
pub uninterp spec fn iset_elems(
    s: indexmap::IndexSet<u64, std::collections::hash_map::RandomState>,
) -> Seq<u64>;

/// Relies on indexmap::IndexSet::new: the set starts empty.
#[verifier::external_body]
fn iset_new() -> (r: indexmap::IndexSet<u64, std::collections::hash_map::RandomState>)
    ensures
        iset_elems(r) == Seq::<u64>::empty(),
{
    indexmap::IndexSet::new()
}

/// Relies on indexmap::IndexSet::insert: an equivalent value already in
/// the set is kept, without altering its insertion order, and `false`
/// comes back; a missing value is inserted last and `true` comes back.
#[verifier::external_body]
fn iset_insert(
    s: &mut indexmap::IndexSet<u64, std::collections::hash_map::RandomState>,
    v: u64,
) -> (r: bool)
    ensures
        iset_elems(*old(s)).contains(v) ==> iset_elems(*final(s)) == iset_elems(*old(s)) && r
            == false,
        !iset_elems(*old(s)).contains(v) ==> iset_elems(*final(s)) == iset_elems(*old(s)).push(v)
            && r == true,
{
    s.insert(v)
}

/// Relies on indexmap::IndexSet::len: the number of values held.
#[verifier::external_body]
fn iset_len(s: &indexmap::IndexSet<u64, std::collections::hash_map::RandomState>) -> (r: usize)
    ensures
        r == iset_elems(*s).len(),
{
    s.len()
}

/// Relies on indexmap::IndexSet::iter: the values come out in insertion
/// order.
#[verifier::external_body]
fn iset_to_vec(s: &indexmap::IndexSet<u64, std::collections::hash_map::RandomState>) -> (r: Vec<
    u64,
>)
    ensures
        r@ == iset_elems(*s),
{
    s.iter().copied().collect()
}

/// The integer code a tag value is stored under.
pub open spec fn spec_tag_code(t: Option<Tag>) -> u64 {
    match t {
        Option::None => 0,
        Option::Some(Tag::TString) => 1,
        Option::Some(Tag::TNumber) => 2,
        Option::Some(Tag::TBoolean) => 3,
        Option::Some(Tag::TObject) => 4,
        Option::Some(Tag::TBigInt) => 5,
        Option::Some(Tag::TSymbol) => 6,
        Option::Some(Tag::TFunction) => 7,
        Option::Some(Tag::TArray) => 8,
        Option::Some(Tag::TSet) => 9,
        Option::Some(Tag::TMap) => 10,
        Option::Some(Tag::TWeakSet) => 11,
        Option::Some(Tag::TWeakMap) => 12,
        Option::Some(Tag::TDate) => 13,
        Option::Some(Tag::TPromise) => 14,
        Option::Some(Tag::TError) => 15,
        Option::Some(Tag::TRegExp) => 16,
    }
}

pub open spec fn code_valid(c: u64) -> bool {
    c <= 16
}

/// The tag value a valid code stands for.
pub open spec fn spec_code_tag(c: u64) -> Option<Tag> {
    if c == 1 {
        Option::Some(Tag::TString)
    } else if c == 2 {
        Option::Some(Tag::TNumber)
    } else if c == 3 {
        Option::Some(Tag::TBoolean)
    } else if c == 4 {
        Option::Some(Tag::TObject)
    } else if c == 5 {
        Option::Some(Tag::TBigInt)
    } else if c == 6 {
        Option::Some(Tag::TSymbol)
    } else if c == 7 {
        Option::Some(Tag::TFunction)
    } else if c == 8 {
        Option::Some(Tag::TArray)
    } else if c == 9 {
        Option::Some(Tag::TSet)
    } else if c == 10 {
        Option::Some(Tag::TMap)
    } else if c == 11 {
        Option::Some(Tag::TWeakSet)
    } else if c == 12 {
        Option::Some(Tag::TWeakMap)
    } else if c == 13 {
        Option::Some(Tag::TDate)
    } else if c == 14 {
        Option::Some(Tag::TPromise)
    } else if c == 15 {
        Option::Some(Tag::TError)
    } else if c == 16 {
        Option::Some(Tag::TRegExp)
    } else {
        Option::None
    }
}

proof fn lemma_code_roundtrip(t: Option<Tag>)
    ensures
        code_valid(spec_tag_code(t)),
        spec_code_tag(spec_tag_code(t)) == t,
{
}

proof fn lemma_valid_code_roundtrip(c: u64)
    requires
        code_valid(c),
    ensures
        spec_tag_code(spec_code_tag(c)) == c,
{
}

/// Inserting a sequence that holds no value twice into the empty set
/// reproduces that sequence.
pub proof fn lemma_extend_empty_no_duplicates(s: Seq<Option<Tag>>)
    requires
        s.no_duplicates(),
    ensures
        tag_extend(Seq::empty(), s) == s,
    decreases s.len(),
{
    if s.len() > 0 {
        assert(s.drop_last().no_duplicates());
        lemma_extend_empty_no_duplicates(s.drop_last());
        assert(!s.drop_last().contains(s.last())) by {
            if s.drop_last().contains(s.last()) {
                let i = choose|i: int|
                    0 <= i < s.drop_last().len() && s.drop_last()[i] == s.last();
                assert(s[i] == s[s.len() - 1]);
            }
        }
        assert(s.drop_last().push(s.last()) =~= s);
    } else {
        assert(tag_extend(Seq::empty(), s) =~= s);
    }
}

fn tag_code(t: &Option<Tag>) -> (r: u64)
    ensures
        r == spec_tag_code(*t),
{
    match t {
        Option::None => 0,
        Option::Some(Tag::TString) => 1,
        Option::Some(Tag::TNumber) => 2,
        Option::Some(Tag::TBoolean) => 3,
        Option::Some(Tag::TObject) => 4,
        Option::Some(Tag::TBigInt) => 5,
        Option::Some(Tag::TSymbol) => 6,
        Option::Some(Tag::TFunction) => 7,
        Option::Some(Tag::TArray) => 8,
        Option::Some(Tag::TSet) => 9,
        Option::Some(Tag::TMap) => 10,
        Option::Some(Tag::TWeakSet) => 11,
        Option::Some(Tag::TWeakMap) => 12,
        Option::Some(Tag::TDate) => 13,
        Option::Some(Tag::TPromise) => 14,
        Option::Some(Tag::TError) => 15,
        Option::Some(Tag::TRegExp) => 16,
    }
}

fn code_tag(c: u64) -> (r: Option<Tag>)
    ensures
        r == spec_code_tag(c),
{
    if c == 1 {
        Option::Some(Tag::TString)
    } else if c == 2 {
        Option::Some(Tag::TNumber)
    } else if c == 3 {
        Option::Some(Tag::TBoolean)
    } else if c == 4 {
        Option::Some(Tag::TObject)
    } else if c == 5 {
        Option::Some(Tag::TBigInt)
    } else if c == 6 {
        Option::Some(Tag::TSymbol)
    } else if c == 7 {
        Option::Some(Tag::TFunction)
    } else if c == 8 {
        Option::Some(Tag::TArray)
    } else if c == 9 {
        Option::Some(Tag::TSet)
    } else if c == 10 {
        Option::Some(Tag::TMap)
    } else if c == 11 {
        Option::Some(Tag::TWeakSet)
    } else if c == 12 {
        Option::Some(Tag::TWeakMap)
    } else if c == 13 {
        Option::Some(Tag::TDate)
    } else if c == 14 {
        Option::Some(Tag::TPromise)
    } else if c == 15 {
        Option::Some(Tag::TError)
    } else if c == 16 {
        Option::Some(Tag::TRegExp)
    } else {
        Option::None
    }
}

/// Insertion into an ordered tag sequence: a present value leaves the
/// sequence unchanged, a missing one is appended.
pub open spec fn tag_insert(s: Seq<Option<Tag>>, t: Option<Tag>) -> Seq<Option<Tag>> {
    if s.contains(t) {
        s
    } else {
        s.push(t)
    }
}

/// Ordered-set extension: every value of `other`, in order, inserted into
/// `s`.
pub open spec fn tag_extend(s: Seq<Option<Tag>>, other: Seq<Option<Tag>>) -> Seq<Option<Tag>>
    decreases other.len(),
{
    if other.len() == 0 {
        s
    } else {
        tag_insert(tag_extend(s, other.drop_last()), other.last())
    }
}

/// An insertion-ordered set of runtime-category tags.
pub struct TagSet {
    codes: indexmap::IndexSet<u64, std::collections::hash_map::RandomState>,
}

impl TagSet {
    /// The tag values held, in first-insertion order.
    pub closed spec fn tags(&self) -> Seq<Option<Tag>> {
        Seq::new(iset_elems(self.codes).len(), |i: int| spec_code_tag(iset_elems(self.codes)[i]))
    }

    /// Everything stored is a valid tag code, held once.
    pub closed spec fn inv(&self) -> bool {
        &&& forall|i: int|
            0 <= i < iset_elems(self.codes).len() ==> code_valid(
                #[trigger] iset_elems(self.codes)[i],
            )
        &&& iset_elems(self.codes).no_duplicates()
    }

    /// The tag sequence of a well-formed set holds no value twice.
    pub proof fn lemma_tags_no_duplicates(&self)
        requires
            self.inv(),
        ensures
            self.tags().no_duplicates(),
    {
        let codes = iset_elems(self.codes);
        assert forall|i: int, j: int| 0 <= i < j < self.tags().len() implies self.tags()[i]
            != self.tags()[j] by {
            assert(code_valid(codes[i]));
            assert(code_valid(codes[j]));
            lemma_valid_code_roundtrip(codes[i]);
            lemma_valid_code_roundtrip(codes[j]);
        }
    }

    pub fn new() -> (r: TagSet)
        ensures
            r.inv(),
            r.tags() == Seq::<Option<Tag>>::empty(),
    {
        let r = TagSet { codes: iset_new() };
        proof {
            assert(r.tags() =~= Seq::<Option<Tag>>::empty());
        }
        r
    }

    pub fn insert(&mut self, t: Option<Tag>)
        requires
            old(self).inv(),
        ensures
            final(self).inv(),
            final(self).tags() == tag_insert(old(self).tags(), t),
    {
        let c = tag_code(&t);
        proof {
            lemma_code_roundtrip(t);
            // The code is present exactly when the tag value is.
            if iset_elems(self.codes).contains(c) {
                let i = choose|i: int|
                    0 <= i < iset_elems(self.codes).len() && iset_elems(self.codes)[i] == c;
                assert(self.tags()[i] == t);
                assert(self.tags().contains(t));
            } else if self.tags().contains(t) {
                let i = choose|i: int| 0 <= i < self.tags().len() && self.tags()[i] == t;
                lemma_code_roundtrip(spec_code_tag(iset_elems(self.codes)[i]));
                assert(spec_code_tag(iset_elems(self.codes)[i]) == t);
                assert(spec_tag_code(spec_code_tag(iset_elems(self.codes)[i])) == iset_elems(
                    self.codes,
                )[i]) by {
                    // Valid codes decode injectively.
                }
                assert(iset_elems(self.codes).contains(c));
            }
        }
        let ghost pre = *self;
        let _added = iset_insert(&mut self.codes, c);
        proof {
            if iset_elems(pre.codes).contains(c) {
                assert(final(self).tags() =~= tag_insert(pre.tags(), t));
            } else {
                assert(final(self).tags() =~= pre.tags().push(t));
            }
        }
    }

    pub fn set_len(&self) -> (r: usize)
        requires
            self.inv(),
        ensures
            r == self.tags().len(),
    {
        iset_len(&self.codes)
    }

    /// Every tag of `other`, in order, inserted into `self`.
    pub fn extend_from(&mut self, other: &TagSet)
        requires
            old(self).inv(),
            other.inv(),
        ensures
            final(self).inv(),
            final(self).tags() == tag_extend(old(self).tags(), other.tags()),
    {
        let src = other.to_tags();
        let ghost base = old(self).tags();
        let n = src.len();
        let mut i: usize = 0;
        while i < n
            invariant
                n == src.len(),
                src@ == other.tags(),
                i <= n,
                self.inv(),
                self.tags() == tag_extend(base, other.tags().take(i as int)),
            decreases n - i,
        {
            self.insert(src[i]);
            proof {
                lemma_tag_extend_step(base, other.tags(), i as int);
            }
            i = i + 1;
        }
        proof {
            assert(other.tags().take(n as int) =~= other.tags());
        }
    }

    /// The tag values held, in first-insertion order.
    pub fn to_tags(&self) -> (r: Vec<Option<Tag>>)
        requires
            self.inv(),
        ensures
            r@ == self.tags(),
    {
        let codes = iset_to_vec(&self.codes);
        let mut r: Vec<Option<Tag>> = Vec::new();
        let n = codes.len();
        let mut i: usize = 0;
        while i < n
            invariant
                n == codes.len(),
                codes@ == iset_elems(self.codes),
                i <= n,
                r@ == self.tags().take(i as int),
            decreases n - i,
        {
            let t = code_tag(codes[i]);
            r.push(t);
            proof {
                assert(r@ =~= self.tags().take(i + 1 as int));
            }
            i = i + 1;
        }
        proof {
            assert(self.tags().take(n as int) =~= self.tags());
        }
        r
    }
}

/// One step of ordered-set extension.
pub proof fn lemma_tag_extend_step(base: Seq<Option<Tag>>, other: Seq<Option<Tag>>, i: int)
    requires
        0 <= i < other.len(),
    ensures
        tag_extend(base, other.take(i + 1)) == tag_insert(tag_extend(base, other.take(i)), other[i]),
{
    assert(other.take(i + 1).drop_last() =~= other.take(i));
    assert(other.take(i + 1).last() == other[i]);
}

} // verus!
