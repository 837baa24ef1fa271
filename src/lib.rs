//! Arithmetic on the elements of a prime field GF(p), with arbitrary-precision
//! residues and moduli.
use vstd::prelude::*;

pub mod bignat;
pub mod ecc;
pub mod errors;

verus! {

} // verus!
