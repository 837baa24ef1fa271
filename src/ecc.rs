//! Elements of a prime field and their arithmetic.
use crate::bignat::{
    decimal, nat_add, nat_decimal, nat_div, nat_lt, nat_mul, nat_pow, nat_rem, nat_sub, BigNat,
};
use crate::errors::ValueError;
use vstd::arithmetic::div_mod::{lemma_mod_add_multiples_vanish, lemma_mod_bound, lemma_small_mod};
use vstd::arithmetic::power::pow;
use vstd::prelude::*;
use vstd::string::StringExecFns;

verus! {

/// Residue of a sum.
pub open spec fn add_residue(x: nat, y: nat, p: nat) -> nat {
    (x + y) % p
}

/// Residue of a difference, computed without leaving the naturals.
pub open spec fn sub_residue(x: nat, y: nat, p: nat) -> nat {
    if x < y {
        (p - ((y - x) as nat) % p) as nat
    } else {
        (x - y) as nat
    }
}

/// For residues in `[0, p)`, the natural-number difference is the true
/// difference modulo `p`, and stays in `[0, p)`.
pub proof fn lemma_sub_residue_is_mod(x: nat, y: nat, p: nat)
    requires
        x < p,
        y < p,
    ensures
        sub_residue(x, y, p) == (x - y) % (p as int),
        sub_residue(x, y, p) < p,
{
    if x < y {
        lemma_small_mod((y - x) as nat, p);
        lemma_mod_add_multiples_vanish(x - y, p as int);
        lemma_small_mod((p + x - y) as nat, p);
    } else {
        lemma_small_mod((x - y) as nat, p);
    }
}

/// Residue of a negation; `p` itself when `x % p == 0`.
pub open spec fn neg_residue(x: nat, p: nat) -> nat {
    (p - x % p) as nat
}

/// Residue of a product.
pub open spec fn mul_residue(x: nat, y: nat, p: nat) -> nat {
    (x * y) % p
}

/// Residue of the floor quotient of the two residues.
pub open spec fn div_residue(x: nat, y: nat, p: nat) -> nat {
    (x / y) % p
}

/// Residue of a power.
pub open spec fn pow_residue(x: nat, e: nat, p: nat) -> nat {
    (pow(x as int, e) % (p as int)) as nat
}

/// The exponent that `pow` uses for a signed power: the power itself when it
/// is not negative, else one more than its magnitude.
pub open spec fn effective_exponent(power: int) -> nat {
    if power < 0 {
        (1 - power) as nat
    } else {
        power as nat
    }
}

/// The message of the error for a residue `num` outside `[0, prime - 1]`.
pub open spec fn range_message(num: nat, prime: nat) -> Seq<char> {
    "num "@ + decimal(num) + " not in field range 0 to "@ + decimal((prime - 1) as nat)
}

/// An element `num mod prime` of the field of order `prime`.
#[derive(Clone, Debug)]
pub struct FieldElement {
    /// The residue.
    pub num: BigNat,
    /// The modulus of the field.
    pub prime: BigNat,
}

/// Construction and exponentiation of field elements; the impl for
/// `FieldElement` states the results.
pub trait FieldElementOps: Sized {
    /// The modulus of the element.
    spec fn modulus(&self) -> nat;

    /// Builds `num mod prime`, or reports that `num` is out of range.
    fn new(num: BigNat, prime: BigNat) -> (r: Result<FieldElement, ValueError>)
        requires
            prime.value() > 0,
    ;

    /// Raises the element to a signed power.
    fn pow(self, power: i128) -> (r: Self)
        requires
            self.modulus() > 0,
            effective_exponent(power as int) <= usize::MAX,
    ;
}

/// The binary operations take two elements of one field; operands of
/// different fields are a caller's error that `requires` rules out.
impl FieldElement {
    /// The residue lies in `[0, prime)`.
    pub open spec fn wf(&self) -> bool {
        self.num.value() < self.prime.value()
    }

    /// `self + rhs`.
    pub fn add(self, rhs: FieldElement) -> (r: FieldElement)
        requires
            self.prime.value() == rhs.prime.value(),
            self.prime.value() > 0,
        ensures
            r.prime == self.prime,
            r.num.value() == add_residue(self.num.value(), rhs.num.value(), self.prime.value()),
            r.wf(),
    {
        let num = nat_rem(&nat_add(&self.num, &rhs.num), &self.prime);
        FieldElement { num, prime: self.prime }
    }

    /// `self - rhs`.
    pub fn sub(self, rhs: FieldElement) -> (r: FieldElement)
        requires
            self.prime.value() == rhs.prime.value(),
            self.prime.value() > 0,
        ensures
            r.prime == self.prime,
            r.num.value() == sub_residue(self.num.value(), rhs.num.value(), self.prime.value()),
            self.wf() && rhs.wf() ==> r.num.value() == (self.num.value() - rhs.num.value()) % (
            self.prime.value() as int),
            self.wf() && rhs.wf() ==> r.wf(),
    {
        proof {
            if self.wf() && rhs.wf() {
                lemma_sub_residue_is_mod(self.num.value(), rhs.num.value(), self.prime.value());
            }
        }
        let num = if nat_lt(&self.num, &rhs.num) {
            let gap = nat_rem(&nat_sub(&rhs.num, &self.num), &self.prime);
            nat_sub(&self.prime, &gap)
        } else {
            nat_sub(&self.num, &rhs.num)
        };
        FieldElement { num, prime: self.prime }
    }

    /// `-self`.
    pub fn neg(self) -> (r: FieldElement)
        requires
            self.prime.value() > 0,
        ensures
            r.prime == self.prime,
            r.num.value() == neg_residue(self.num.value(), self.prime.value()),
            self.num.value() % self.prime.value() != 0 ==> r.wf(),
    {
        let rest = nat_rem(&self.num, &self.prime);
        let num = nat_sub(&self.prime, &rest);
        FieldElement { num, prime: self.prime }
    }

    /// `self * rhs`.
    pub fn mul(self, rhs: FieldElement) -> (r: FieldElement)
        requires
            self.prime.value() == rhs.prime.value(),
            self.prime.value() > 0,
        ensures
            r.prime == self.prime,
            r.num.value() == mul_residue(self.num.value(), rhs.num.value(), self.prime.value()),
            r.wf(),
    {
        let num = nat_rem(&nat_mul(&self.num, &rhs.num), &self.prime);
        FieldElement { num, prime: self.prime }
    }

    /// `self / rhs`: the floor quotient of the residues, reduced.
    pub fn div(self, rhs: FieldElement) -> (r: FieldElement)
        requires
            self.prime.value() == rhs.prime.value(),
            self.prime.value() > 0,
            rhs.num.value() > 0,
        ensures
            r.prime == self.prime,
            r.num.value() == div_residue(self.num.value(), rhs.num.value(), self.prime.value()),
            r.wf(),
    {
        let num = nat_rem(&nat_div(&self.num, &rhs.num), &self.prime);
        FieldElement { num, prime: self.prime }
    }
}

impl PartialEq for FieldElement {
    /// Same residue and same modulus.
    fn eq(&self, other: &FieldElement) -> (r: bool) {
        self.num == other.num && self.prime == other.prime
    }
}

impl vstd::std_specs::cmp::PartialEqSpecImpl for FieldElement {
    open spec fn obeys_eq_spec() -> bool {
        true
    }

    open spec fn eq_spec(&self, other: &FieldElement) -> bool {
        self.num.value() == other.num.value() && self.prime.value() == other.prime.value()
    }
}

impl FieldElementOps for FieldElement {
    open spec fn modulus(&self) -> nat {
        self.prime.value()
    }

    fn new(num: BigNat, prime: BigNat) -> (r: Result<FieldElement, ValueError>)
        ensures
            r is Ok <==> num.value() < prime.value(),
            r matches Ok(e) ==> e.num == num && e.prime == prime && e.wf(),
            r matches Err(err) ==> err.message@ == range_message(num.value(), prime.value()),
    {
        if nat_lt(&num, &prime) {
            Ok(FieldElement { num, prime })
        } else {
            let top = nat_sub(&prime, &BigNat::from_u64(1));
            let mut message = String::from_str("num ");
            message.append(nat_decimal(&num).as_str());
            message.append(" not in field range 0 to ");
            message.append(nat_decimal(&top).as_str());
            Err(ValueError { message })
        }
    }

    fn pow(self, power: i128) -> (r: FieldElement)
        ensures
            r.prime == self.prime,
            r.num.value() == pow_residue(
                self.num.value(),
                effective_exponent(power as int),
                self.prime.value(),
            ),
            r.wf(),
    {
        let exp: usize = if power < 0 {
            1 + (0 - power) as usize
        } else {
            power as usize
        };
        let num = nat_rem(&nat_pow(&self.num, exp), &self.prime);
        FieldElement { num, prime: self.prime }
    }
}

/// Addition and multiplication of two elements of one field do not depend on
/// the order of the operands.
pub proof fn lemma_commutative(a: FieldElement, b: FieldElement)
    requires
        a.prime.value() == b.prime.value(),
        a.prime.value() > 0,
    ensures
        add_residue(a.num.value(), b.num.value(), a.prime.value()) == add_residue(
            b.num.value(),
            a.num.value(),
            b.prime.value(),
        ),
        mul_residue(a.num.value(), b.num.value(), a.prime.value()) == mul_residue(
            b.num.value(),
            a.num.value(),
            b.prime.value(),
        ),
{
    assert(a.num.value() * b.num.value() == b.num.value() * a.num.value()) by (nonlinear_arith);
}

/// Subtracting an element from itself gives the zero element.
pub proof fn lemma_sub_self_is_zero(a: FieldElement)
    requires
        a.prime.value() > 0,
    ensures
        sub_residue(a.num.value(), a.num.value(), a.prime.value()) == 0,
{
}

/// Every operation on elements of a field gives an element of that field,
/// but for the negation of zero, which gives the modulus itself.
pub proof fn lemma_closure(a: FieldElement, b: FieldElement, e: nat)
    requires
        a.wf(),
        b.wf(),
        a.prime.value() == b.prime.value(),
    ensures
        add_residue(a.num.value(), b.num.value(), a.prime.value()) < a.prime.value(),
        sub_residue(a.num.value(), b.num.value(), a.prime.value()) < a.prime.value(),
        mul_residue(a.num.value(), b.num.value(), a.prime.value()) < a.prime.value(),
        b.num.value() > 0 ==> div_residue(a.num.value(), b.num.value(), a.prime.value())
            < a.prime.value(),
        pow_residue(a.num.value(), e, a.prime.value()) < a.prime.value(),
        a.num.value() != 0 ==> neg_residue(a.num.value(), a.prime.value()) < a.prime.value(),
        a.num.value() == 0 ==> neg_residue(a.num.value(), a.prime.value()) == a.prime.value(),
{
    let (x, y, p) = (a.num.value(), b.num.value(), a.prime.value());
    lemma_sub_residue_is_mod(x, y, p);
    lemma_small_mod(x, p);
    lemma_mod_bound(pow(x as int, e), p as int);
}

} // verus!
