//! The catalog of text-styling capabilities.
//!
//! Each capability is assigned a distinct bit position below
//! [`ATTRIBUTE_COUNT`], hence a distinct power-of-two bitmask within a
//! 32-bit word, and the catalog fixes one canonical enumeration order.

use vstd::prelude::*;

verus! {

/// How many capabilities the catalog defines; every bit position is below
/// this bound.
pub const ATTRIBUTE_COUNT: u32 = 16;

/// One discrete text-styling capability, treated as an atomic flag.
#[derive(Debug, Clone, Copy, PartialEq, Eq, Structural)]
pub enum Attribute {
    Bold,
    Dim,
    Italic,
    Underlined,
    DoubleUnderlined,
    Undercurled,
    Underdotted,
    Underdashed,
    SlowBlink,
    RapidBlink,
    Reverse,
    Hidden,
    CrossedOut,
    Framed,
    Encircled,
    OverLined,
}

/// The canonical enumeration of all capabilities, in a fixed, repeatable
/// order; `Attribute::all` produces exactly this sequence.
pub open spec fn catalog() -> Seq<Attribute> {
    seq![
        Attribute::Bold,
        Attribute::Dim,
        Attribute::Italic,
        Attribute::Underlined,
        Attribute::DoubleUnderlined,
        Attribute::Undercurled,
        Attribute::Underdotted,
        Attribute::Underdashed,
        Attribute::SlowBlink,
        Attribute::RapidBlink,
        Attribute::Reverse,
        Attribute::Hidden,
        Attribute::CrossedOut,
        Attribute::Framed,
        Attribute::Encircled,
        Attribute::OverLined,
    ]
}

impl Attribute {
    /// The bit position assigned to this capability: one position per
    /// capability, no two alike, all below `ATTRIBUTE_COUNT`.
    pub open spec fn index_spec(self) -> u32 {
        match self {
            Attribute::Bold => 0,
            Attribute::Dim => 1,
            Attribute::Italic => 2,
            Attribute::Underlined => 3,
            Attribute::DoubleUnderlined => 4,
            Attribute::Undercurled => 5,
            Attribute::Underdotted => 6,
            Attribute::Underdashed => 7,
            Attribute::SlowBlink => 8,
            Attribute::RapidBlink => 9,
            Attribute::Reverse => 10,
            Attribute::Hidden => 11,
            Attribute::CrossedOut => 12,
            Attribute::Framed => 13,
            Attribute::Encircled => 14,
            Attribute::OverLined => 15,
        }
    }

    /// This capability's bitmask: the power of two selecting its bit.
    pub open spec fn mask_spec(self) -> u32 {
        1u32 << self.index_spec()
    }

    /// The bit position assigned to this capability.
    pub fn index(self) -> (r: u32)
        ensures
            r == self.index_spec(),
    {
        match self {
            Attribute::Bold => 0,
            Attribute::Dim => 1,
            Attribute::Italic => 2,
            Attribute::Underlined => 3,
            Attribute::DoubleUnderlined => 4,
            Attribute::Undercurled => 5,
            Attribute::Underdotted => 6,
            Attribute::Underdashed => 7,
            Attribute::SlowBlink => 8,
            Attribute::RapidBlink => 9,
            Attribute::Reverse => 10,
            Attribute::Hidden => 11,
            Attribute::CrossedOut => 12,
            Attribute::Framed => 13,
            Attribute::Encircled => 14,
            Attribute::OverLined => 15,
        }
    }

    /// This capability's bitmask.
    pub fn bytes(self) -> (r: u32)
        ensures
            r == self.mask_spec(),
    {
        proof {
            lemma_index_bound(self);
        }
        let i: u32 = self.index();
        1u32 << i
    }

    /// All capabilities, in canonical enumeration order.
    pub fn all() -> (r: Vec<Attribute>)
        ensures
            r@ == catalog(),
    {
        let r: Vec<Attribute> = vec![
            Attribute::Bold,
            Attribute::Dim,
            Attribute::Italic,
            Attribute::Underlined,
            Attribute::DoubleUnderlined,
            Attribute::Undercurled,
            Attribute::Underdotted,
            Attribute::Underdashed,
            Attribute::SlowBlink,
            Attribute::RapidBlink,
            Attribute::Reverse,
            Attribute::Hidden,
            Attribute::CrossedOut,
            Attribute::Framed,
            Attribute::Encircled,
            Attribute::OverLined,
        ];
        proof {
            assert(r@ =~= catalog());
        }
        r
    }
}

/// Every bit position the catalog assigns lies below `ATTRIBUTE_COUNT`.
pub proof fn lemma_index_bound(a: Attribute)
    ensures
        a.index_spec() < ATTRIBUTE_COUNT,
{
}

/// Distinct capabilities sit at distinct bit positions.
pub proof fn lemma_index_injective(a: Attribute, b: Attribute)
    requires
        a != b,
    ensures
        a.index_spec() != b.index_spec(),
{
}

/// The canonical enumeration names every capability.
pub proof fn lemma_catalog_complete(a: Attribute)
    ensures
        catalog().contains(a),
{
    assert(catalog()[a.index_spec() as int] == a);
}

/// The capability enumerated at position `i` sits at bit position `i`.
pub proof fn lemma_catalog_index(i: int)
    requires
        0 <= i < catalog().len(),
    ensures
        catalog()[i].index_spec() == i,
{
}

/// The canonical enumeration names no capability twice.
pub proof fn lemma_catalog_no_duplicates()
    ensures
        catalog().no_duplicates(),
{
    assert forall|i: int, j: int|
        0 <= i < catalog().len() && 0 <= j < catalog().len() && i != j implies catalog()[i]
        != catalog()[j] by {
        lemma_catalog_index(i);
        lemma_catalog_index(j);
    }
}

} // verus!
