//! The attribute set: a fixed-capacity bitset over the capability catalog,
//! with a complete boolean set algebra.
//!
//! Every operation is specified twice over: once as a value-level spec
//! function mirroring the operation (`with_spec`, `union_spec`, ...), and
//! once against the mathematical model `Set<Attribute>` reached through the
//! view `@`. The value level supports the algebraic laws at the end of this
//! file; the view level says what each operation means as a set.

use vstd::prelude::*;
use vstd::std_specs::ops::BitXorSpec;

use crate::attribute::{
    catalog, lemma_catalog_complete, lemma_catalog_no_duplicates, lemma_index_bound,
    lemma_index_injective, Attribute,
};

verus! {

/// The bits of the flags word that some capability owns: positions
/// `0 .. ATTRIBUTE_COUNT`, i.e. `0 .. 16`.
const VALID_BITS: u32 = 0xFFFF;

/// A bitset of text-styling capabilities.
///
/// The flags word holds one bit per capability of the catalog; a set value
/// is cheap to copy and independent of every other copy.
#[derive(Debug, Clone, Copy, PartialEq, Eq, Structural)]
pub struct Attributes(u32);

impl View for Attributes {
    type V = Set<Attribute>;

    /// The mathematical model: the set of capabilities whose bit is set.
    closed spec fn view(&self) -> Set<Attribute> {
        Set::new(|a: Attribute| self.0 & a.mask_spec() != 0)
    }
}

impl Attributes {
    /// Only bits assigned to a defined capability are set. Every
    /// construction and mutation path of this type preserves this, because
    /// every bit it sets originates from a capability's bitmask.
    pub closed spec fn wf(self) -> bool {
        self.0 & VALID_BITS == self.0
    }

    /// The empty set, as a specification-level value.
    pub closed spec fn empty_spec() -> Attributes {
        Attributes(0)
    }

    /// The singleton set of one capability, as a specification-level value.
    pub closed spec fn single_spec(a: Attribute) -> Attributes {
        Attributes(a.mask_spec())
    }

    /// The value `with` returns: `self` plus the capability's bit.
    pub closed spec fn with_spec(self, a: Attribute) -> Attributes {
        Attributes(self.0 | a.mask_spec())
    }

    /// The value `without` returns: `self` minus the capability's bit.
    pub closed spec fn without_spec(self, a: Attribute) -> Attributes {
        Attributes(self.0 & !a.mask_spec())
    }

    /// The value `toggle` leaves behind: the capability's bit flipped.
    pub closed spec fn toggle_spec(self, a: Attribute) -> Attributes {
        Attributes(self.0 ^ a.mask_spec())
    }

    /// The value `union` returns: bits present in either operand.
    pub closed spec fn union_spec(self, other: Attributes) -> Attributes {
        Attributes(self.0 | other.0)
    }

    /// The value `intersection` returns: bits present in both operands.
    pub closed spec fn inter_spec(self, other: Attributes) -> Attributes {
        Attributes(self.0 & other.0)
    }

    /// The value `difference` returns: bits of `self` absent from `other`.
    pub closed spec fn diff_spec(self, other: Attributes) -> Attributes {
        Attributes(self.0 & !other.0)
    }

    /// The value `symmetric_difference` returns: bits present in exactly
    /// one operand.
    pub closed spec fn symdiff_spec(self, other: Attributes) -> Attributes {
        Attributes(self.0 ^ other.0)
    }

    /// What `contains` decides: every bit of `other` is set in `self`.
    pub closed spec fn contains_spec(self, other: Attributes) -> bool {
        self.0 & other.0 == other.0
    }

    /// What `intersects` decides: the operands share at least one bit.
    pub closed spec fn intersects_spec(self, other: Attributes) -> bool {
        self.0 & other.0 != 0
    }

    /// The value built from a sequence of capabilities, one `with` at a
    /// time; order and duplication are immaterial to the result.
    pub closed spec fn from_seq_spec(s: Seq<Attribute>) -> Attributes
        decreases s.len(),
    {
        if s.len() == 0 {
            Attributes::empty_spec()
        } else {
            Attributes::from_seq_spec(s.drop_last()).with_spec(s.last())
        }
    }
}

// ---------------------------------------------------------------------------
// Word-level facts, each discharged by the bit-vector solver.
// ---------------------------------------------------------------------------
proof fn bv_shift_self(i: u32)
    by (bit_vector)
    requires
        i < 32,
    ensures
        (1u32 << i) & (1u32 << i) != 0,
{
}

proof fn bv_shift_disjoint(i: u32, j: u32)
    by (bit_vector)
    requires
        i < 32,
        j < 32,
        i != j,
    ensures
        (1u32 << i) & (1u32 << j) == 0,
{
}

proof fn bv_shift_low(i: u32)
    by (bit_vector)
    requires
        i < 16,
    ensures
        (1u32 << i) & 0xFFFFu32 == 1u32 << i,
{
}

proof fn bv_and_zero(x: u32)
    by (bit_vector)
    ensures
        x & 0u32 == 0,
        0u32 & x == 0,
{
}

proof fn bv_or_bit(x: u32, y: u32, i: u32)
    by (bit_vector)
    requires
        i < 32,
    ensures
        (x | y) & (1u32 << i) != 0 <==> (x & (1u32 << i) != 0 || y & (1u32 << i) != 0),
{
}

proof fn bv_and_bit(x: u32, y: u32, i: u32)
    by (bit_vector)
    requires
        i < 32,
    ensures
        (x & y) & (1u32 << i) != 0 <==> (x & (1u32 << i) != 0 && y & (1u32 << i) != 0),
{
}

proof fn bv_xor_bit(x: u32, y: u32, i: u32)
    by (bit_vector)
    requires
        i < 32,
    ensures
        (x ^ y) & (1u32 << i) != 0 <==> ((x & (1u32 << i) != 0) != (y & (1u32 << i) != 0)),
{
}

proof fn bv_diff_bit(x: u32, y: u32, i: u32)
    by (bit_vector)
    requires
        i < 32,
    ensures
        (x & !y) & (1u32 << i) != 0 <==> (x & (1u32 << i) != 0 && y & (1u32 << i) == 0),
{
}

proof fn bv_wf_ops(x: u32, y: u32)
    by (bit_vector)
    requires
        x & 0xFFFFu32 == x,
        y & 0xFFFFu32 == y,
    ensures
        (x | y) & 0xFFFFu32 == x | y,
        (x & y) & 0xFFFFu32 == x & y,
        (x ^ y) & 0xFFFFu32 == x ^ y,
        (x & !y) & 0xFFFFu32 == x & !y,
{
}

proof fn bv_and_subset(x: u32, y: u32, m: u32)
    by (bit_vector)
    requires
        x & y == y,
        y & m != 0,
    ensures
        x & m != 0,
{
}

proof fn bv_pair_nonzero(x: u32, y: u32, i: u32)
    by (bit_vector)
    requires
        i < 32,
        x & (1u32 << i) != 0,
        y & (1u32 << i) != 0,
    ensures
        x & y != 0,
{
}

proof fn bv_subset_bits(x: u32, y: u32)
    by (bit_vector)
    requires
        y & 0xFFFFu32 == y,
        y & (1u32 << 0u32) != 0 ==> x & (1u32 << 0u32) != 0,
        y & (1u32 << 1u32) != 0 ==> x & (1u32 << 1u32) != 0,
        y & (1u32 << 2u32) != 0 ==> x & (1u32 << 2u32) != 0,
        y & (1u32 << 3u32) != 0 ==> x & (1u32 << 3u32) != 0,
        y & (1u32 << 4u32) != 0 ==> x & (1u32 << 4u32) != 0,
        y & (1u32 << 5u32) != 0 ==> x & (1u32 << 5u32) != 0,
        y & (1u32 << 6u32) != 0 ==> x & (1u32 << 6u32) != 0,
        y & (1u32 << 7u32) != 0 ==> x & (1u32 << 7u32) != 0,
        y & (1u32 << 8u32) != 0 ==> x & (1u32 << 8u32) != 0,
        y & (1u32 << 9u32) != 0 ==> x & (1u32 << 9u32) != 0,
        y & (1u32 << 10u32) != 0 ==> x & (1u32 << 10u32) != 0,
        y & (1u32 << 11u32) != 0 ==> x & (1u32 << 11u32) != 0,
        y & (1u32 << 12u32) != 0 ==> x & (1u32 << 12u32) != 0,
        y & (1u32 << 13u32) != 0 ==> x & (1u32 << 13u32) != 0,
        y & (1u32 << 14u32) != 0 ==> x & (1u32 << 14u32) != 0,
        y & (1u32 << 15u32) != 0 ==> x & (1u32 << 15u32) != 0,
    ensures
        x & y == y,
{
}

proof fn bv_empty_bits(x: u32)
    by (bit_vector)
    requires
        x & 0xFFFFu32 == x,
        x & (1u32 << 0u32) == 0,
        x & (1u32 << 1u32) == 0,
        x & (1u32 << 2u32) == 0,
        x & (1u32 << 3u32) == 0,
        x & (1u32 << 4u32) == 0,
        x & (1u32 << 5u32) == 0,
        x & (1u32 << 6u32) == 0,
        x & (1u32 << 7u32) == 0,
        x & (1u32 << 8u32) == 0,
        x & (1u32 << 9u32) == 0,
        x & (1u32 << 10u32) == 0,
        x & (1u32 << 11u32) == 0,
        x & (1u32 << 12u32) == 0,
        x & (1u32 << 13u32) == 0,
        x & (1u32 << 14u32) == 0,
        x & (1u32 << 15u32) == 0,
    ensures
        x == 0,
{
}

proof fn bv_intersect_cases(x: u32, y: u32)
    by (bit_vector)
    requires
        x & 0xFFFFu32 == x,
        x & y != 0,
    ensures
        (x & (1u32 << 0u32) != 0 && y & (1u32 << 0u32) != 0) || (x & (1u32 << 1u32) != 0 && y & (
        1u32 << 1u32) != 0) || (x & (1u32 << 2u32) != 0 && y & (1u32 << 2u32) != 0) || (x & (1u32
            << 3u32) != 0 && y & (1u32 << 3u32) != 0) || (x & (1u32 << 4u32) != 0 && y & (1u32
            << 4u32) != 0) || (x & (1u32 << 5u32) != 0 && y & (1u32 << 5u32) != 0) || (x & (1u32
            << 6u32) != 0 && y & (1u32 << 6u32) != 0) || (x & (1u32 << 7u32) != 0 && y & (1u32
            << 7u32) != 0) || (x & (1u32 << 8u32) != 0 && y & (1u32 << 8u32) != 0) || (x & (1u32
            << 9u32) != 0 && y & (1u32 << 9u32) != 0) || (x & (1u32 << 10u32) != 0 && y & (1u32
            << 10u32) != 0) || (x & (1u32 << 11u32) != 0 && y & (1u32 << 11u32) != 0) || (x & (1u32
            << 12u32) != 0 && y & (1u32 << 12u32) != 0) || (x & (1u32 << 13u32) != 0 && y & (1u32
            << 13u32) != 0) || (x & (1u32 << 14u32) != 0 && y & (1u32 << 14u32) != 0) || (x & (1u32
            << 15u32) != 0 && y & (1u32 << 15u32) != 0),
{
}

// ---------------------------------------------------------------------------
// Bridges between the flags word and the set model.
// ---------------------------------------------------------------------------
/// One capability's mask tests another capability's bit exactly when the
/// two capabilities are the same.
proof fn lemma_mask_test(a: Attribute, b: Attribute)
    ensures
        a.mask_spec() & (1u32 << b.index_spec()) != 0 <==> a == b,
{
    lemma_index_bound(a);
    lemma_index_bound(b);
    if a == b {
        bv_shift_self(a.index_spec());
    } else {
        lemma_index_injective(a, b);
        bv_shift_disjoint(a.index_spec(), b.index_spec());
    }
}

/// The empty value models the empty set and is well formed.
pub proof fn lemma_empty_view()
    ensures
        Attributes::empty_spec()@ == Set::<Attribute>::empty(),
        Attributes::empty_spec().wf(),
{
    assert forall|b: Attribute| !(#[trigger] Attributes::empty_spec()@.contains(b)) by {
        bv_and_zero(1u32 << b.index_spec());
    }
    assert(Attributes::empty_spec()@ =~= Set::<Attribute>::empty());
    bv_and_zero(VALID_BITS);
}

/// The singleton value models the one-capability set and is well formed.
pub proof fn lemma_single_view(a: Attribute)
    ensures
        Attributes::single_spec(a)@ == Set::<Attribute>::empty().insert(a),
        Attributes::single_spec(a).wf(),
{
    assert forall|b: Attribute|
        #[trigger] Attributes::single_spec(a)@.contains(b) <==> b == a by {
        lemma_mask_test(a, b);
    }
    assert(Attributes::single_spec(a)@ =~= Set::<Attribute>::empty().insert(a));
    lemma_index_bound(a);
    bv_shift_low(a.index_spec());
}

/// Adding one capability's bit models set insertion and preserves
/// well-formedness.
pub proof fn lemma_with_view(s: Attributes, a: Attribute)
    ensures
        s.with_spec(a)@ == s@.insert(a),
        s.wf() ==> s.with_spec(a).wf(),
{
    lemma_index_bound(a);
    assert forall|b: Attribute|
        #[trigger] s.with_spec(a)@.contains(b) <==> s@.insert(a).contains(b) by {
        lemma_index_bound(b);
        bv_or_bit(s.0, a.mask_spec(), b.index_spec());
        lemma_mask_test(a, b);
    }
    assert(s.with_spec(a)@ =~= s@.insert(a));
    if s.wf() {
        bv_shift_low(a.index_spec());
        bv_wf_ops(s.0, a.mask_spec());
    }
}

/// Clearing one capability's bit models set removal and preserves
/// well-formedness.
pub proof fn lemma_without_view(s: Attributes, a: Attribute)
    ensures
        s.without_spec(a)@ == s@.remove(a),
        s.wf() ==> s.without_spec(a).wf(),
{
    lemma_index_bound(a);
    assert forall|b: Attribute|
        #[trigger] s.without_spec(a)@.contains(b) <==> s@.remove(a).contains(b) by {
        lemma_index_bound(b);
        bv_diff_bit(s.0, a.mask_spec(), b.index_spec());
        lemma_mask_test(a, b);
    }
    assert(s.without_spec(a)@ =~= s@.remove(a));
    if s.wf() {
        bv_shift_low(a.index_spec());
        bv_wf_ops(s.0, a.mask_spec());
    }
}

/// Flipping one capability's bit models removal when present, insertion
/// when absent, and preserves well-formedness.
pub proof fn lemma_toggle_view(s: Attributes, a: Attribute)
    ensures
        s.toggle_spec(a)@ == (if s@.contains(a) {
            s@.remove(a)
        } else {
            s@.insert(a)
        }),
        s.wf() ==> s.toggle_spec(a).wf(),
{
    lemma_index_bound(a);
    assert forall|b: Attribute|
        #[trigger] s.toggle_spec(a)@.contains(b) <==> ((s@.contains(b)) != (b == a)) by {
        lemma_index_bound(b);
        bv_xor_bit(s.0, a.mask_spec(), b.index_spec());
        lemma_mask_test(a, b);
    }
    if s@.contains(a) {
        assert(s.toggle_spec(a)@ =~= s@.remove(a));
    } else {
        assert(s.toggle_spec(a)@ =~= s@.insert(a));
    }
    if s.wf() {
        bv_shift_low(a.index_spec());
        bv_wf_ops(s.0, a.mask_spec());
    }
}

/// The bitwise OR of two values models set union and preserves
/// well-formedness.
pub proof fn lemma_union_view(s: Attributes, o: Attributes)
    ensures
        s.union_spec(o)@ == s@.union(o@),
        s.wf() && o.wf() ==> s.union_spec(o).wf(),
{
    assert forall|b: Attribute|
        #[trigger] s.union_spec(o)@.contains(b) <==> s@.union(o@).contains(b) by {
        lemma_index_bound(b);
        bv_or_bit(s.0, o.0, b.index_spec());
    }
    assert(s.union_spec(o)@ =~= s@.union(o@));
    if s.wf() && o.wf() {
        bv_wf_ops(s.0, o.0);
    }
}

/// The bitwise AND of two values models set intersection and preserves
/// well-formedness.
pub proof fn lemma_inter_view(s: Attributes, o: Attributes)
    ensures
        s.inter_spec(o)@ == s@.intersect(o@),
        s.wf() && o.wf() ==> s.inter_spec(o).wf(),
{
    assert forall|b: Attribute|
        #[trigger] s.inter_spec(o)@.contains(b) <==> s@.intersect(o@).contains(b) by {
        lemma_index_bound(b);
        bv_and_bit(s.0, o.0, b.index_spec());
    }
    assert(s.inter_spec(o)@ =~= s@.intersect(o@));
    if s.wf() && o.wf() {
        bv_wf_ops(s.0, o.0);
    }
}

/// The bitwise AND-NOT of two values models set difference and preserves
/// well-formedness.
pub proof fn lemma_diff_view(s: Attributes, o: Attributes)
    ensures
        s.diff_spec(o)@ == s@.difference(o@),
        s.wf() && o.wf() ==> s.diff_spec(o).wf(),
{
    assert forall|b: Attribute|
        #[trigger] s.diff_spec(o)@.contains(b) <==> s@.difference(o@).contains(b) by {
        lemma_index_bound(b);
        bv_diff_bit(s.0, o.0, b.index_spec());
    }
    assert(s.diff_spec(o)@ =~= s@.difference(o@));
    if s.wf() && o.wf() {
        bv_wf_ops(s.0, o.0);
    }
}

/// The bitwise XOR of two values models symmetric difference and preserves
/// well-formedness.
pub proof fn lemma_symdiff_view(s: Attributes, o: Attributes)
    ensures
        s.symdiff_spec(o)@ == s@.difference(o@).union(o@.difference(s@)),
        s.wf() && o.wf() ==> s.symdiff_spec(o).wf(),
{
    assert forall|b: Attribute|
        #[trigger] s.symdiff_spec(o)@.contains(b) <==> s@.difference(o@).union(
            o@.difference(s@),
        ).contains(b) by {
        lemma_index_bound(b);
        bv_xor_bit(s.0, o.0, b.index_spec());
    }
    assert(s.symdiff_spec(o)@ =~= s@.difference(o@).union(o@.difference(s@)));
    if s.wf() && o.wf() {
        bv_wf_ops(s.0, o.0);
    }
}

// ---------------------------------------------------------------------------
// The executable operations.
// ---------------------------------------------------------------------------
impl Attributes {
    /// Returns the empty bitset.
    pub fn none() -> (r: Self)
        ensures
            r == Self::empty_spec(),
            r@ == Set::<Attribute>::empty(),
            r.wf(),
    {
        proof {
            lemma_empty_view();
        }
        Attributes(0)
    }

    /// Returns a copy of the bitset with the given attribute set.
    /// If it's already set, this returns the bitset unmodified.
    pub fn with(self, attribute: Attribute) -> (r: Self)
        ensures
            r == self.with_spec(attribute),
            r@ == self@.insert(attribute),
            self.wf() ==> r.wf(),
    {
        proof {
            lemma_with_view(self, attribute);
        }
        Attributes(self.0 | attribute.bytes())
    }

    /// Returns a copy of the bitset with the given attribute unset.
    /// If it's not set, this returns the bitset unmodified.
    pub fn without(self, attribute: Attribute) -> (r: Self)
        ensures
            r == self.without_spec(attribute),
            r@ == self@.remove(attribute),
            self.wf() ==> r.wf(),
    {
        proof {
            lemma_without_view(self, attribute);
        }
        Attributes(self.0 & !attribute.bytes())
    }

    /// Sets the attribute.
    /// If it's already set, this does nothing.
    pub fn set(&mut self, attribute: Attribute)
        ensures
            *final(self) == old(self).with_spec(attribute),
            final(self)@ == old(self)@.insert(attribute),
            old(self).wf() ==> final(self).wf(),
    {
        proof {
            lemma_with_view(*old(self), attribute);
        }
        self.0 = self.0 | attribute.bytes();
    }

    /// Unsets the attribute.
    /// If it's not set, this changes nothing.
    pub fn unset(&mut self, attribute: Attribute)
        ensures
            *final(self) == old(self).without_spec(attribute),
            final(self)@ == old(self)@.remove(attribute),
            old(self).wf() ==> final(self).wf(),
    {
        proof {
            lemma_without_view(*old(self), attribute);
        }
        self.0 = self.0 & !attribute.bytes();
    }

    /// Sets the attribute if it's unset, unset it
    /// if it is set.
    pub fn toggle(&mut self, attribute: Attribute)
        ensures
            *final(self) == old(self).toggle_spec(attribute),
            final(self)@ == (if old(self)@.contains(attribute) {
                old(self)@.remove(attribute)
            } else {
                old(self)@.insert(attribute)
            }),
            old(self).wf() ==> final(self).wf(),
    {
        proof {
            lemma_toggle_view(*old(self), attribute);
        }
        self.0 = self.0 ^ attribute.bytes();
    }

    /// Returns whether the attribute is set.
    pub fn has(self, attribute: Attribute) -> (r: bool)
        ensures
            r == self@.contains(attribute),
    {
        self.0 & attribute.bytes() != 0
    }

    /// Sets all the passed attributes. Removes none.
    pub fn extend(&mut self, attributes: Attributes)
        ensures
            *final(self) == old(self).union_spec(attributes),
            final(self)@ == old(self)@.union(attributes@),
            old(self).wf() && attributes.wf() ==> final(self).wf(),
    {
        proof {
            lemma_union_view(*old(self), attributes);
        }
        self.0 = self.0 | attributes.0;
    }

    /// Returns whether there is no attribute set.
    pub fn is_empty(self) -> (r: bool)
        ensures
            r == (self == Self::empty_spec()),
            r ==> self@ == Set::<Attribute>::empty(),
            self.wf() ==> (r <==> self@ == Set::<Attribute>::empty()),
    {
        proof {
            lemma_empty_view();
            if self.wf() && self@ == Set::<Attribute>::empty() {
                assert(!self@.contains(Attribute::Bold));
                assert(!self@.contains(Attribute::Dim));
                assert(!self@.contains(Attribute::Italic));
                assert(!self@.contains(Attribute::Underlined));
                assert(!self@.contains(Attribute::DoubleUnderlined));
                assert(!self@.contains(Attribute::Undercurled));
                assert(!self@.contains(Attribute::Underdotted));
                assert(!self@.contains(Attribute::Underdashed));
                assert(!self@.contains(Attribute::SlowBlink));
                assert(!self@.contains(Attribute::RapidBlink));
                assert(!self@.contains(Attribute::Reverse));
                assert(!self@.contains(Attribute::Hidden));
                assert(!self@.contains(Attribute::CrossedOut));
                assert(!self@.contains(Attribute::Framed));
                assert(!self@.contains(Attribute::Encircled));
                assert(!self@.contains(Attribute::OverLined));
                bv_empty_bits(self.0);
            }
        }
        self.0 == 0
    }

    /// Returns `true` if there are attributes common to both sets.
    pub fn intersects(&self, other: Self) -> (r: bool)
        ensures
            r == self.intersects_spec(other),
            (exists|a: Attribute| #[trigger] self@.contains(a) && other@.contains(a)) ==> r,
            self.wf() && other.wf() ==> (r <==> exists|a: Attribute|
                #[trigger] self@.contains(a) && other@.contains(a)),
    {
        proof {
            if exists|a: Attribute| #[trigger] self@.contains(a) && other@.contains(a) {
                let a = choose|a: Attribute| #[trigger] self@.contains(a) && other@.contains(a);
                lemma_index_bound(a);
                bv_pair_nonzero(self.0, other.0, a.index_spec());
            }
            if self.wf() && other.wf() && self.intersects_spec(other) {
                lemma_common_attribute(*self, other);
            }
        }
        (self.0 & other.0) != 0
    }

    /// Returns `true` if all attributes in `other` are contained within `self`.
    pub fn contains(&self, other: Self) -> (r: bool)
        ensures
            r == self.contains_spec(other),
            r ==> other@.subset_of(self@),
            other.wf() ==> (r <==> other@.subset_of(self@)),
    {
        proof {
            if self.contains_spec(other) {
                assert forall|a: Attribute| other@.contains(a) implies self@.contains(a) by {
                    bv_and_subset(self.0, other.0, a.mask_spec());
                }
            }
            if other.wf() && other@.subset_of(self@) {
                assert(other@.contains(Attribute::Bold) ==> self@.contains(Attribute::Bold));
                assert(other@.contains(Attribute::Dim) ==> self@.contains(Attribute::Dim));
                assert(other@.contains(Attribute::Italic) ==> self@.contains(Attribute::Italic));
                assert(other@.contains(Attribute::Underlined) ==> self@.contains(
                    Attribute::Underlined,
                ));
                assert(other@.contains(Attribute::DoubleUnderlined) ==> self@.contains(
                    Attribute::DoubleUnderlined,
                ));
                assert(other@.contains(Attribute::Undercurled) ==> self@.contains(
                    Attribute::Undercurled,
                ));
                assert(other@.contains(Attribute::Underdotted) ==> self@.contains(
                    Attribute::Underdotted,
                ));
                assert(other@.contains(Attribute::Underdashed) ==> self@.contains(
                    Attribute::Underdashed,
                ));
                assert(other@.contains(Attribute::SlowBlink) ==> self@.contains(
                    Attribute::SlowBlink,
                ));
                assert(other@.contains(Attribute::RapidBlink) ==> self@.contains(
                    Attribute::RapidBlink,
                ));
                assert(other@.contains(Attribute::Reverse) ==> self@.contains(Attribute::Reverse));
                assert(other@.contains(Attribute::Hidden) ==> self@.contains(Attribute::Hidden));
                assert(other@.contains(Attribute::CrossedOut) ==> self@.contains(
                    Attribute::CrossedOut,
                ));
                assert(other@.contains(Attribute::Framed) ==> self@.contains(Attribute::Framed));
                assert(other@.contains(Attribute::Encircled) ==> self@.contains(
                    Attribute::Encircled,
                ));
                assert(other@.contains(Attribute::OverLined) ==> self@.contains(
                    Attribute::OverLined,
                ));
                bv_subset_bits(self.0, other.0);
            }
        }
        (self.0 & other.0) == other.0
    }

    /// Returns the attributes contained in *both* `self` and `other`.
    ///
    /// This is equivalent to using the `&` operator.
    #[must_use]
    pub fn intersection(self, other: Self) -> (r: Self)
        ensures
            r == self.inter_spec(other),
            r@ == self@.intersect(other@),
            self.wf() && other.wf() ==> r.wf(),
    {
        proof {
            lemma_inter_view(self, other);
        }
        Attributes(self.0 & other.0)
    }

    /// Returns the combined attributes of `self` and `other`.
    ///
    /// This is equivalent to using the `|` operator.
    #[must_use]
    pub fn union(self, other: Self) -> (r: Self)
        ensures
            r == self.union_spec(other),
            r@ == self@.union(other@),
            self.wf() && other.wf() ==> r.wf(),
    {
        proof {
            lemma_union_view(self, other);
        }
        Attributes(self.0 | other.0)
    }

    /// Returns the attributes present in `self` that are not present in `other`.
    #[must_use]
    pub fn difference(self, other: Self) -> (r: Self)
        ensures
            r == self.diff_spec(other),
            r@ == self@.difference(other@),
            self.wf() && other.wf() ==> r.wf(),
    {
        proof {
            lemma_diff_view(self, other);
        }
        Attributes(self.0 & !other.0)
    }

    /// Returns the attributes present in `self` or `other`, but not present in
    /// both.
    ///
    /// This is equivalent to using the `^` operator.
    #[must_use]
    pub fn symmetric_difference(self, other: Self) -> (r: Self)
        ensures
            r == self.symdiff_spec(other),
            r@ == self@.difference(other@).union(other@.difference(self@)),
            self.wf() && other.wf() ==> r.wf(),
    {
        proof {
            lemma_symdiff_view(self, other);
        }
        Attributes(self.0 ^ other.0)
    }
}

impl Attributes {
    /// Returns all the attributes in `self`, in the catalog's canonical
    /// enumeration order: precisely those for which `has` is true, each
    /// once, as many as the set holds. Re-invoking it re-derives the
    /// sequence from current state.
    pub fn iter(&self) -> (r: Vec<Attribute>)
        ensures
            r@ == catalog().filter(|a: Attribute| self@.contains(a)),
            forall|a: Attribute| #[trigger] r@.contains(a) <==> self@.contains(a),
            r@.no_duplicates(),
            self@.finite(),
            r@.len() == self@.len(),
    {
        let ghost pred = |a: Attribute| self@.contains(a);
        let all = Attribute::all();
        let mut r: Vec<Attribute> = Vec::new();
        let mut i: usize = 0;
        proof {
            lemma_catalog_no_duplicates();
            assert(catalog().subrange(0, 0).filter(pred) =~= Seq::<Attribute>::empty());
        }
        while i < all.len()
            invariant
                all@ == catalog(),
                i <= all@.len(),
                r@ == catalog().subrange(0, i as int).filter(pred),
                forall|a: Attribute| #[trigger] r@.contains(a) <==> (catalog().subrange(
                    0,
                    i as int,
                ).contains(a) && self@.contains(a)),
                r@.no_duplicates(),
                pred == (|a: Attribute| self@.contains(a)),
            decreases all@.len() - i,
        {
            let a = all[i];
            proof {
                let prefix = catalog().subrange(0, i as int);
                let prefix1 = catalog().subrange(0, i as int + 1);
                assert(prefix1 =~= prefix.push(catalog()[i as int]));
                Seq::lemma_filter_push(prefix, catalog()[i as int], pred);
                lemma_catalog_no_duplicates();
                if prefix.contains(catalog()[i as int]) {
                    let j = choose|j: int|
                        0 <= j < prefix.len() && prefix[j] == catalog()[i as int];
                    assert(catalog()[j] == catalog()[i as int]);
                    assert(false);
                }
                assert(forall|b: Attribute| #[trigger] prefix1.contains(b) <==> (prefix.contains(
                    b,
                ) || b == catalog()[i as int])) by {
                    assert forall|b: Attribute| prefix1.contains(b) implies (prefix.contains(b)
                        || b == catalog()[i as int]) by {
                        let j = choose|j: int| 0 <= j < prefix1.len() && prefix1[j] == b;
                        if j < prefix.len() {
                            assert(prefix[j] == b);
                        }
                    }
                    assert forall|b: Attribute|
                        (prefix.contains(b) || b == catalog()[i as int]) implies prefix1.contains(
                        b,
                    ) by {
                        if prefix.contains(b) {
                            let j = choose|j: int| 0 <= j < prefix.len() && prefix[j] == b;
                            assert(prefix1[j] == b);
                        } else {
                            assert(prefix1[prefix.len() as int] == b);
                        }
                    }
                }
            }
            if self.has(a) {
                proof {
                    if r@.contains(a) {
                        assert(false);
                    }
                }
                let ghost old_r = r@;
                r.push(a);
                proof {
                    assert(r@ == old_r.push(a));
                    assert forall|b: Attribute| #[trigger]
                        r@.contains(b) <==> (old_r.contains(b) || b == a) by {
                        if r@.contains(b) {
                            let j = choose|j: int| 0 <= j < r@.len() && r@[j] == b;
                            if j < old_r.len() {
                                assert(old_r[j] == b);
                            }
                        }
                        if old_r.contains(b) {
                            let j = choose|j: int| 0 <= j < old_r.len() && old_r[j] == b;
                            assert(r@[j] == b);
                        }
                        assert(r@[r@.len() - 1] == a);
                    }
                    assert forall|p: int, q: int| 0 <= p < q < r@.len() implies r@[p] != r@[q] by {
                        if q < r@.len() - 1 {
                            assert(old_r[p] == r@[p] && old_r[q] == r@[q]);
                        } else {
                            assert(r@[q] == a);
                            if r@[p] == a {
                                assert(old_r[p] == a);
                                assert(old_r.contains(a));
                            }
                        }
                    }
                }
            }
            i = i + 1;
        }
        proof {
            assert(catalog().subrange(0, catalog().len() as int) =~= catalog());
            assert forall|a: Attribute| #[trigger] r@.contains(a) <==> self@.contains(a) by {
                lemma_catalog_complete(a);
            }
            assert(r@.to_set() =~= self@);
            r@.unique_seq_to_set();
            vstd::seq_lib::seq_to_set_is_finite(r@);
        }
        r
    }
}

impl core::convert::From<Attribute> for Attributes {
    /// The singleton set of one capability.
    fn from(attribute: Attribute) -> Self {
        Attributes(attribute.bytes())
    }
}

impl vstd::std_specs::convert::FromSpecImpl<Attribute> for Attributes {
    open spec fn obeys_from_spec() -> bool {
        true
    }

    open spec fn from_spec(v: Attribute) -> Attributes {
        Attributes::single_spec(v)
    }
}

impl core::convert::From<&[Attribute]> for Attributes {
    /// The union of the capabilities listed, in any order, duplicates and
    /// all: each listed capability is set once.
    fn from(arr: &[Attribute]) -> Self {
        let mut attributes = Attributes::none();
        let mut i: usize = 0;
        while i < arr.len()
            invariant
                i <= arr@.len(),
                attributes == Attributes::from_seq_spec(arr@.subrange(0, i as int)),
            decreases arr@.len() - i,
        {
            proof {
                let prefix = arr@.subrange(0, i as int);
                let prefix1 = arr@.subrange(0, i as int + 1);
                assert(prefix1.drop_last() =~= prefix);
                assert(prefix1.last() == arr@[i as int]);
            }
            attributes.set(arr[i]);
            i = i + 1;
        }
        proof {
            assert(arr@.subrange(0, arr@.len() as int) =~= arr@);
        }
        attributes
    }
}

impl vstd::std_specs::convert::FromSpecImpl<&[Attribute]> for Attributes {
    open spec fn obeys_from_spec() -> bool {
        true
    }

    open spec fn from_spec(v: &[Attribute]) -> Attributes {
        Attributes::from_seq_spec(v@)
    }
}

impl core::default::Default for Attributes {
    /// The empty set.
    fn default() -> (r: Self)
        ensures
            r == Attributes::empty_spec(),
            r@ == Set::<Attribute>::empty(),
            r.wf(),
    {
        Attributes::none()
    }
}

/// A value built from a sequence of capabilities models exactly the set of
/// the capabilities listed, whatever their order or duplication, and is
/// well formed.
pub proof fn lemma_from_seq_view(s: Seq<Attribute>)
    ensures
        Attributes::from_seq_spec(s)@ == s.to_set(),
        Attributes::from_seq_spec(s).wf(),
    decreases s.len(),
{
    if s.len() == 0 {
        lemma_empty_view();
        assert(s.to_set() =~= Set::<Attribute>::empty());
    } else {
        lemma_from_seq_view(s.drop_last());
        lemma_with_view(Attributes::from_seq_spec(s.drop_last()), s.last());
        assert forall|a: Attribute| #[trigger]
            s.to_set().contains(a) <==> (s.drop_last().to_set().contains(a) || a == s.last()) by {
            if s.contains(a) {
                let i = choose|i: int| 0 <= i < s.len() && s[i] == a;
                if i < s.len() - 1 {
                    assert(s.drop_last()[i] == a);
                }
            }
            if s.drop_last().contains(a) {
                let i = choose|i: int| 0 <= i < s.drop_last().len() && s.drop_last()[i] == a;
                assert(s[i] == a);
            }
            assert(s[s.len() - 1] == s.last());
        }
        assert(s.drop_last().to_set().insert(s.last()) =~= s.to_set());
    }
}

// ---------------------------------------------------------------------------
// The operator overloads: `&`, `|` and `^` between two sets are exactly
// `intersection`, `union` and `symmetric_difference`; between a set and a
// single capability they first promote the capability to a singleton set.
// ---------------------------------------------------------------------------
impl core::ops::BitAnd for Attributes {
    type Output = Attributes;

    /// Set intersection, as the `&` operator.
    fn bitand(self, rhs: Self) -> Self {
        Attributes(self.0 & rhs.0)
    }
}

impl vstd::std_specs::ops::BitAndSpecImpl for Attributes {
    open spec fn obeys_bitand_spec() -> bool {
        true
    }

    open spec fn bitand_req(self, rhs: Attributes) -> bool {
        true
    }

    open spec fn bitand_spec(self, rhs: Attributes) -> Attributes {
        self.inter_spec(rhs)
    }
}

impl core::ops::BitAnd<Attribute> for Attributes {
    type Output = Attributes;

    /// Intersection with the singleton set of one capability.
    fn bitand(self, rhs: Attribute) -> Self {
        Attributes(self.0 & rhs.bytes())
    }
}

impl vstd::std_specs::ops::BitAndSpecImpl<Attribute> for Attributes {
    open spec fn obeys_bitand_spec() -> bool {
        true
    }

    open spec fn bitand_req(self, rhs: Attribute) -> bool {
        true
    }

    open spec fn bitand_spec(self, rhs: Attribute) -> Attributes {
        self.inter_spec(Attributes::single_spec(rhs))
    }
}

impl core::ops::BitOr for Attributes {
    type Output = Attributes;

    /// Set union, as the `|` operator.
    fn bitor(self, rhs: Self) -> Self {
        Attributes(self.0 | rhs.0)
    }
}

impl vstd::std_specs::ops::BitOrSpecImpl for Attributes {
    open spec fn obeys_bitor_spec() -> bool {
        true
    }

    open spec fn bitor_req(self, rhs: Attributes) -> bool {
        true
    }

    open spec fn bitor_spec(self, rhs: Attributes) -> Attributes {
        self.union_spec(rhs)
    }
}

impl core::ops::BitOr<Attribute> for Attributes {
    type Output = Attributes;

    /// Union with the singleton set of one capability.
    fn bitor(self, rhs: Attribute) -> Self {
        Attributes(self.0 | rhs.bytes())
    }
}

impl vstd::std_specs::ops::BitOrSpecImpl<Attribute> for Attributes {
    open spec fn obeys_bitor_spec() -> bool {
        true
    }

    open spec fn bitor_req(self, rhs: Attribute) -> bool {
        true
    }

    open spec fn bitor_spec(self, rhs: Attribute) -> Attributes {
        self.union_spec(Attributes::single_spec(rhs))
    }
}

impl core::ops::BitXor for Attributes {
    type Output = Attributes;

    /// Symmetric difference, as the `^` operator.
    fn bitxor(self, rhs: Self) -> Self {
        Attributes(self.0 ^ rhs.0)
    }
}

impl vstd::std_specs::ops::BitXorSpecImpl for Attributes {
    open spec fn obeys_bitxor_spec() -> bool {
        true
    }

    open spec fn bitxor_req(self, rhs: Attributes) -> bool {
        true
    }

    open spec fn bitxor_spec(self, rhs: Attributes) -> Attributes {
        self.symdiff_spec(rhs)
    }
}

impl core::ops::BitXor<Attribute> for Attributes {
    type Output = Attributes;

    /// Symmetric difference with the singleton set of one capability.
    fn bitxor(self, rhs: Attribute) -> Self {
        Attributes(self.0 ^ rhs.bytes())
    }
}

impl vstd::std_specs::ops::BitXorSpecImpl<Attribute> for Attributes {
    open spec fn obeys_bitxor_spec() -> bool {
        true
    }

    open spec fn bitxor_req(self, rhs: Attribute) -> bool {
        true
    }

    open spec fn bitxor_spec(self, rhs: Attribute) -> Attributes {
        self.symdiff_spec(Attributes::single_spec(rhs))
    }
}

/// Two well-formed sets whose flag words share a bit share a capability.
proof fn lemma_common_attribute(s: Attributes, o: Attributes)
    requires
        s.wf(),
        o.wf(),
        s.intersects_spec(o),
    ensures
        exists|a: Attribute| #[trigger] s@.contains(a) && o@.contains(a),
{
    bv_intersect_cases(s.0, o.0);
    if s.0 & (1u32 << 0u32) != 0 && o.0 & (1u32 << 0u32) != 0 {
        assert(s@.contains(Attribute::Bold) && o@.contains(Attribute::Bold));
    } else if s.0 & (1u32 << 1u32) != 0 && o.0 & (1u32 << 1u32) != 0 {
        assert(s@.contains(Attribute::Dim) && o@.contains(Attribute::Dim));
    } else if s.0 & (1u32 << 2u32) != 0 && o.0 & (1u32 << 2u32) != 0 {
        assert(s@.contains(Attribute::Italic) && o@.contains(Attribute::Italic));
    } else if s.0 & (1u32 << 3u32) != 0 && o.0 & (1u32 << 3u32) != 0 {
        assert(s@.contains(Attribute::Underlined) && o@.contains(Attribute::Underlined));
    } else if s.0 & (1u32 << 4u32) != 0 && o.0 & (1u32 << 4u32) != 0 {
        assert(s@.contains(Attribute::DoubleUnderlined) && o@.contains(
            Attribute::DoubleUnderlined,
        ));
    } else if s.0 & (1u32 << 5u32) != 0 && o.0 & (1u32 << 5u32) != 0 {
        assert(s@.contains(Attribute::Undercurled) && o@.contains(Attribute::Undercurled));
    } else if s.0 & (1u32 << 6u32) != 0 && o.0 & (1u32 << 6u32) != 0 {
        assert(s@.contains(Attribute::Underdotted) && o@.contains(Attribute::Underdotted));
    } else if s.0 & (1u32 << 7u32) != 0 && o.0 & (1u32 << 7u32) != 0 {
        assert(s@.contains(Attribute::Underdashed) && o@.contains(Attribute::Underdashed));
    } else if s.0 & (1u32 << 8u32) != 0 && o.0 & (1u32 << 8u32) != 0 {
        assert(s@.contains(Attribute::SlowBlink) && o@.contains(Attribute::SlowBlink));
    } else if s.0 & (1u32 << 9u32) != 0 && o.0 & (1u32 << 9u32) != 0 {
        assert(s@.contains(Attribute::RapidBlink) && o@.contains(Attribute::RapidBlink));
    } else if s.0 & (1u32 << 10u32) != 0 && o.0 & (1u32 << 10u32) != 0 {
        assert(s@.contains(Attribute::Reverse) && o@.contains(Attribute::Reverse));
    } else if s.0 & (1u32 << 11u32) != 0 && o.0 & (1u32 << 11u32) != 0 {
        assert(s@.contains(Attribute::Hidden) && o@.contains(Attribute::Hidden));
    } else if s.0 & (1u32 << 12u32) != 0 && o.0 & (1u32 << 12u32) != 0 {
        assert(s@.contains(Attribute::CrossedOut) && o@.contains(Attribute::CrossedOut));
    } else if s.0 & (1u32 << 13u32) != 0 && o.0 & (1u32 << 13u32) != 0 {
        assert(s@.contains(Attribute::Framed) && o@.contains(Attribute::Framed));
    } else if s.0 & (1u32 << 14u32) != 0 && o.0 & (1u32 << 14u32) != 0 {
        assert(s@.contains(Attribute::Encircled) && o@.contains(Attribute::Encircled));
    } else {
        assert(s@.contains(Attribute::OverLined) && o@.contains(Attribute::OverLined));
    }
}

// ---------------------------------------------------------------------------
// The algebraic laws of the set algebra, each proved once and for all.
// ---------------------------------------------------------------------------
/// A set built from one capability holds that capability, and holds a
/// capability only if it is that one.
pub proof fn lemma_single_exact(a: Attribute, b: Attribute)
    ensures
        Attributes::single_spec(a)@.contains(a),
        Attributes::single_spec(a)@.contains(b) <==> b == a,
{
    lemma_single_view(a);
}

/// `toggle` is self-inverse: toggling the same capability twice restores
/// the original set, whatever the starting set.
pub proof fn lemma_toggle_self_inverse(s: Attributes, a: Attribute)
    ensures
        s.toggle_spec(a).toggle_spec(a) == s,
{
    let x: u32 = s.0;
    let m: u32 = a.mask_spec();
    assert((x ^ m) ^ m == x) by (bit_vector);
}

/// `with` is idempotent: adding a capability a second time changes
/// nothing.
pub proof fn lemma_with_idempotent(s: Attributes, a: Attribute)
    ensures
        s.with_spec(a).with_spec(a) == s.with_spec(a),
{
    let x: u32 = s.0;
    let m: u32 = a.mask_spec();
    assert((x | m) | m == x | m) by (bit_vector);
}

/// `without` on an absent capability is a no-op.
pub proof fn lemma_without_absent(s: Attributes, a: Attribute)
    requires
        !s@.contains(a),
    ensures
        s.without_spec(a) == s,
{
    let x: u32 = s.0;
    let m: u32 = a.mask_spec();
    assert(x & !m == x) by (bit_vector)
        requires
            x & m == 0,
    ;
}

/// `contains` is reflexive: every set contains itself.
pub proof fn lemma_contains_reflexive(s: Attributes)
    ensures
        s.contains_spec(s),
{
    let x: u32 = s.0;
    assert(x & x == x) by (bit_vector);
}

/// The empty set is contained in every set: every set contains it.
pub proof fn lemma_contains_empty(s: Attributes)
    ensures
        s.contains_spec(Attributes::empty_spec()),
{
    bv_and_zero(s.0);
}

/// `intersects` is symmetric.
pub proof fn lemma_intersects_symmetric(s: Attributes, o: Attributes)
    ensures
        s.intersects_spec(o) == o.intersects_spec(s),
{
    let x: u32 = s.0;
    let y: u32 = o.0;
    assert(x & y == y & x) by (bit_vector);
}

/// `intersects` against the empty set is always false, on either side.
pub proof fn lemma_intersects_empty(s: Attributes)
    ensures
        !s.intersects_spec(Attributes::empty_spec()),
        !Attributes::empty_spec().intersects_spec(s),
{
    bv_and_zero(s.0);
}

/// `union` is commutative.
pub proof fn lemma_union_commutative(a: Attributes, b: Attributes)
    ensures
        a.union_spec(b) == b.union_spec(a),
{
    let x: u32 = a.0;
    let y: u32 = b.0;
    assert(x | y == y | x) by (bit_vector);
}

/// `union` is associative.
pub proof fn lemma_union_associative(a: Attributes, b: Attributes, c: Attributes)
    ensures
        a.union_spec(b.union_spec(c)) == a.union_spec(b).union_spec(c),
{
    let x: u32 = a.0;
    let y: u32 = b.0;
    let z: u32 = c.0;
    assert(x | (y | z) == (x | y) | z) by (bit_vector);
}

/// `intersection` is commutative.
pub proof fn lemma_intersection_commutative(a: Attributes, b: Attributes)
    ensures
        a.inter_spec(b) == b.inter_spec(a),
{
    let x: u32 = a.0;
    let y: u32 = b.0;
    assert(x & y == y & x) by (bit_vector);
}

/// `intersection` is associative.
pub proof fn lemma_intersection_associative(a: Attributes, b: Attributes, c: Attributes)
    ensures
        a.inter_spec(b.inter_spec(c)) == a.inter_spec(b).inter_spec(c),
{
    let x: u32 = a.0;
    let y: u32 = b.0;
    let z: u32 = c.0;
    assert(x & (y & z) == (x & y) & z) by (bit_vector);
}

/// `difference` is not commutative in general: a singleton against the
/// empty set witnesses the failure.
pub proof fn lemma_difference_not_commutative()
    ensures
        exists|a: Attributes, b: Attributes| #[trigger] a.diff_spec(b) != b.diff_spec(a),
{
    let s = Attributes::single_spec(Attribute::Bold);
    let e = Attributes::empty_spec();
    assert((1u32 << 0u32) & !0u32 != 0u32 & !(1u32 << 0u32)) by (bit_vector);
    assert(s.diff_spec(e) != e.diff_spec(s));
}

/// Symmetric difference decomposes into the union of the two one-sided
/// differences, and is exactly what the `^` operator computes.
pub proof fn lemma_symmetric_difference_decomposition(a: Attributes, b: Attributes)
    ensures
        a.symdiff_spec(b) == a.diff_spec(b).union_spec(b.diff_spec(a)),
        a.symdiff_spec(b) == a.bitxor_spec(b),
{
    let x: u32 = a.0;
    let y: u32 = b.0;
    assert(x ^ y == (x & !y) | (y & !x)) by (bit_vector);
}

} // verus!
