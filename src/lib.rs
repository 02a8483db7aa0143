//! Derivations for type declarations, computed on descriptors of items,
//! enums, structs and newtypes.
//!
//! An item's attributes are split into ordinary attributes, the compiler's
//! derivations and macro derivations (`attrs`); an enum's variants are
//! checked for the shape that a derivation needs (`enums`); unit-only enums
//! get iteration, stepping, display, parsing and conversion from their
//! discriminants (`unitary`); newtypes forward operators to their field
//! (`newtype`); structs give their fields by position or by type (`structs`).
//! Each derivation request is checked against the shape of the item it is
//! to run on (`dispatch`).
//! Item headers (`header`), generic parameter lists and `where` clauses
//! (`generics`), and enum and struct bodies (`syntax`) are parsed from tokens
//! into these descriptors.

pub mod attrs;
pub mod dispatch;
pub mod enums;
pub mod generics;
pub mod header;
pub mod newtype;
pub mod structs;
pub mod syntax;
pub mod unitary;

pub use enums::{EnumDef, EnumKind, EnumValue, Payload, ShapeError, UnaryEnum, VariantDef};
pub use newtype::{BinaryOp, Newtype, OperandShape, OperatorArgs, UnaryOp};
pub use syntax::{Delim, SyntaxError, Token};
pub use structs::{FieldDef, StructDef, StructKind, TypeIndex, TypeIndexError, TypeIndexMut};
pub use unitary::{
    IterVariantNames, IterVariants, ParseEnumError, TryFrom, UnitaryEnum, VariantIter,
    VariantNameIter,
};
