//! The failure conditions this core reports. All of them are deterministic
//! and caller-triggered; none is transient.
use vstd::prelude::*;

verus! {

#[derive(Clone, Copy, Debug, PartialEq, Eq, Structural)]
pub enum Error {
    /// A reference string was requested for maximum degree zero: such a key
    /// could only commit to constants.
    DegreeIsZero,
    /// A trim was requested beyond the degree the reference string was
    /// configured with.
    TruncatedDegreeTooLarge,
    /// An evaluation domain was requested whose size is not a power of two
    /// within the two-adicity of the scalar field.
    InvalidEvalDomainSize,
    /// A value that the quotient or grand-product computation must divide by
    /// turned out to be zero: a fatal domain or challenge defect.
    UninvertibleValue,
}

} // verus!
