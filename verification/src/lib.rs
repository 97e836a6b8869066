//! Arithmetization and polynomial-IOP core of a PLONK-style proof system:
//! a constraint-system builder, the copy-constraint permutation argument,
//! the quotient-polynomial assembler, and a KZG10-style reference-string
//! setup, all specified against a residue model of the BLS12-381 scalar
//! field.
pub mod composer;
pub mod domain;
pub mod error;
pub mod field;
pub mod grand_product;
pub mod group;
pub mod permutation;
pub mod preprocessed;
pub mod quotient;
pub mod srs;
pub mod widget;
pub mod scalar;
