//! A fixed-capacity bit-flag set of text-styling capabilities.
//!
//! The [`Attribute`] enum is the catalog of styling capabilities; each
//! capability owns one bit of a 32-bit flags word. [`Attributes`] is the
//! bitset over that catalog, with a complete boolean set algebra whose
//! operations are specified against a mathematical `Set<Attribute>` model.

pub mod attribute;
pub mod attributes;

pub use attribute::Attribute;
pub use attributes::Attributes;
