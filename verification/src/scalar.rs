//! Numbers that the library carries but never computes with.
use vstd::prelude::*;

verus! {

/// A binary64 number, kept as its IEEE 754 bit pattern.
///
/// Solved voltages, currents and residuals arrive from the numerical solver.
/// The library stores them, moves them between the unknown vector and the
/// result channels, and hands them back unchanged.
#[derive(Clone, Copy, Debug, PartialEq, Eq, Structural)]
pub struct Scalar {
    pub bits: u64,
}

impl Scalar {
    /// The pattern of positive zero.
    pub open spec fn zero_spec() -> Scalar {
        Scalar { bits: 0 }
    }

    /// Positive zero.
    #[verifier::when_used_as_spec(zero_spec)]
    pub fn zero() -> (r: Scalar)
        ensures
            r == Scalar::zero_spec(),
    {
        Scalar { bits: 0 }
    }

    /// The number with the given bit pattern.
    pub fn from_bits(bits: u64) -> (r: Scalar)
        ensures
            r.bits == bits,
    {
        Scalar { bits }
    }
}

/// `n` zeros.
pub fn zeros(n: usize) -> (r: Vec<Scalar>)
    ensures
        r@ == Seq::new(n as nat, |i: int| Scalar::zero()),
{
    let mut out: Vec<Scalar> = Vec::new();
    let mut i: usize = 0;
    while i < n
        invariant
            i <= n,
            out@ == Seq::new(i as nat, |j: int| Scalar::zero()),
        decreases n - i,
    {
        out.push(Scalar::zero());
        i += 1;
        assert(out@ =~= Seq::new(i as nat, |j: int| Scalar::zero()));
    }
    out
}

} // verus!
